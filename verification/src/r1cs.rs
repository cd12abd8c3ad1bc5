//! A rank-one constraint system together with its assignment.
//!
//! A system holds the values of its instance and witness variables and a
//! list of constraints, each of them three linear combinations `a`, `b` and
//! `c` that are to meet `a * b = c`. The gadgets of this crate work on
//! [`FpVar`]: a linear combination of variables together with the value that
//! it has under the assignment. Sums, differences and multiples of such
//! variables cost no constraint; a product costs one.
//!
//! What a contract says of satisfaction is said of the assignment that the
//! gadgets themselves write. It is the statement that a prover who follows
//! them can or cannot meet the constraints, and not one about every other
//! assignment.

use crate::field::{
    fadd, fmul, fsub, lemma_fadd_assoc, lemma_fadd_zero, lemma_fmul_assoc, lemma_fmul_distributes,
    lemma_fmul_unit, lemma_fsub_as_fadd, lemma_fsub_then_fadd, lemma_fsub_zero, modulus, values,
    FieldElement,
};
use vstd::prelude::*;

verus! {

/// A variable of a constraint system: a witness or an instance variable, by
/// its index among those of its kind. Instance variable zero is the constant
/// one.
#[derive(Clone, Copy, Debug, PartialEq, Eq)]
pub struct Variable {
    pub witness: bool,
    pub index: usize,
}

/// One term of a linear combination: a coefficient times a variable.
#[derive(Clone, Copy, Debug)]
pub struct Term {
    pub coeff: FieldElement,
    pub variable: Variable,
}

/// One constraint: the product of the combinations `a` and `b` is to be the
/// combination `c`.
#[derive(Debug)]
pub struct Constraint {
    pub a: Vec<Term>,
    pub b: Vec<Term>,
    pub c: Vec<Term>,
}

/// The value that an assignment gives to a variable.
pub open spec fn assigned(instance: Seq<nat>, witness: Seq<nat>, v: Variable) -> nat {
    if v.witness {
        witness[v.index as int]
    } else {
        instance[v.index as int]
    }
}

/// Whether a variable is one of the first `instances` instance variables or
/// the first `witnesses` witness variables.
pub open spec fn in_range(v: Variable, instances: nat, witnesses: nat) -> bool {
    if v.witness {
        v.index < witnesses
    } else {
        v.index < instances
    }
}

/// Whether every variable of a combination is in range.
pub open spec fn terms_in_range(terms: Seq<Term>, instances: nat, witnesses: nat) -> bool {
    forall|i: int| 0 <= i < terms.len() ==> in_range((#[trigger] terms[i]).variable, instances, witnesses)
}

/// The value of a linear combination under an assignment: the sum, in the
/// field, of each coefficient times the value of its variable.
pub open spec fn lc_eval(terms: Seq<Term>, instance: Seq<nat>, witness: Seq<nat>) -> nat
    decreases terms.len(),
{
    if terms.len() == 0 {
        0
    } else {
        fadd(
            lc_eval(terms.drop_last(), instance, witness),
            fmul(terms.last().coeff@, assigned(instance, witness, terms.last().variable)),
        )
    }
}

/// Whether an assignment meets a constraint.
pub open spec fn constraint_holds(c: Constraint, instance: Seq<nat>, witness: Seq<nat>) -> bool {
    fmul(lc_eval(c.a@, instance, witness), lc_eval(c.b@, instance, witness)) == lc_eval(
        c.c@,
        instance,
        witness,
    )
}

/// Whether every variable of a constraint is in range.
pub open spec fn constraint_in_range(c: Constraint, instances: nat, witnesses: nat) -> bool {
    &&& terms_in_range(c.a@, instances, witnesses)
    &&& terms_in_range(c.b@, instances, witnesses)
    &&& terms_in_range(c.c@, instances, witnesses)
}

/// Whether an assignment meets every constraint of a list.
pub open spec fn all_hold(constraints: Seq<Constraint>, instance: Seq<nat>, witness: Seq<nat>) -> bool {
    forall|i: int|
        0 <= i < constraints.len() ==> constraint_holds(#[trigger] constraints[i], instance, witness)
}

/// Whether `long` begins with `short`.
pub open spec fn is_prefix(short: Seq<nat>, long: Seq<nat>) -> bool {
    &&& short.len() <= long.len()
    &&& forall|i: int| 0 <= i < short.len() ==> short[i] == long[i]
}

/// The value of a combination is a residue.
pub proof fn lemma_eval_bound(terms: Seq<Term>, instance: Seq<nat>, witness: Seq<nat>)
    ensures
        lc_eval(terms, instance, witness) < modulus(),
{
}

/// Variables that come later do not change the value of a combination.
pub proof fn lemma_eval_extension(
    terms: Seq<Term>,
    instance: Seq<nat>,
    witness: Seq<nat>,
    instance2: Seq<nat>,
    witness2: Seq<nat>,
)
    requires
        terms_in_range(terms, instance.len(), witness.len()),
        is_prefix(instance, instance2),
        is_prefix(witness, witness2),
    ensures
        lc_eval(terms, instance2, witness2) == lc_eval(terms, instance, witness),
    decreases terms.len(),
{
    if terms.len() > 0 {
        lemma_eval_extension(terms.drop_last(), instance, witness, instance2, witness2);
        assert(in_range(terms[terms.len() - 1].variable, instance.len(), witness.len()));
    }
}

/// The value of two combinations joined is the sum of their values.
pub proof fn lemma_eval_concat(a: Seq<Term>, b: Seq<Term>, instance: Seq<nat>, witness: Seq<nat>)
    ensures
        lc_eval(a + b, instance, witness) == fadd(
            lc_eval(a, instance, witness),
            lc_eval(b, instance, witness),
        ),
    decreases b.len(),
{
    lemma_eval_bound(a, instance, witness);
    if b.len() == 0 {
        assert(a + b =~= a);
        lemma_fadd_zero(lc_eval(a, instance, witness));
    } else {
        assert((a + b).drop_last() =~= a + b.drop_last());
        assert((a + b).last() == b.last());
        lemma_eval_concat(a, b.drop_last(), instance, witness);
        lemma_fadd_assoc(
            lc_eval(a, instance, witness),
            lc_eval(b.drop_last(), instance, witness),
            fmul(b.last().coeff@, assigned(instance, witness, b.last().variable)),
        );
    }
}

/// The value of a combination of one term.
pub proof fn lemma_eval_single(t: Term, instance: Seq<nat>, witness: Seq<nat>)
    ensures
        lc_eval(seq![t], instance, witness) == fmul(t.coeff@, assigned(instance, witness, t.variable)),
{
    let s = seq![t];
    assert(s.len() == 1);
    assert(s.last() == t);
    assert(s.drop_last() =~= Seq::<Term>::empty());
    assert(lc_eval(s.drop_last(), instance, witness) == 0);
    assert(fmul(t.coeff@, assigned(instance, witness, t.variable)) < modulus());
    lemma_fadd_zero(fmul(t.coeff@, assigned(instance, witness, t.variable)));
}

/// A combination whose coefficients are those of `terms` times `k`.
pub open spec fn scaled(terms: Seq<Term>, k: nat, out: Seq<Term>) -> bool {
    &&& out.len() == terms.len()
    &&& forall|i: int|
        0 <= i < terms.len() ==> (#[trigger] out[i]).variable == terms[i].variable && out[i].coeff@
            == fmul(k, terms[i].coeff@)
}

/// The value of a scaled combination is the factor times the value.
pub proof fn lemma_eval_scaled(
    terms: Seq<Term>,
    k: nat,
    out: Seq<Term>,
    instance: Seq<nat>,
    witness: Seq<nat>,
)
    requires
        scaled(terms, k, out),
    ensures
        lc_eval(out, instance, witness) == fmul(k, lc_eval(terms, instance, witness)),
    decreases terms.len(),
{
    if terms.len() == 0 {
        lemma_fmul_unit(0);
        assert(fmul(k, 0) == 0) by {
            assert(k * 0 == 0);
            vstd::arithmetic::div_mod::lemma_small_mod(0, modulus());
        }
    } else {
        let n = terms.len() - 1;
        assert(scaled(terms.drop_last(), k, out.drop_last())) by {
            assert forall|i: int| 0 <= i < n implies (#[trigger] out.drop_last()[i]).variable
                == terms.drop_last()[i].variable && out.drop_last()[i].coeff@ == fmul(
                k,
                terms.drop_last()[i].coeff@,
            ) by {
                assert(out.drop_last()[i] == out[i]);
            }
        }
        lemma_eval_scaled(terms.drop_last(), k, out.drop_last(), instance, witness);
        let v = assigned(instance, witness, terms.last().variable);
        assert(out.last() == out[n as int]);
        lemma_fmul_assoc(k, terms.last().coeff@, v);
        lemma_fmul_distributes(
            k,
            lc_eval(terms.drop_last(), instance, witness),
            fmul(terms.last().coeff@, v),
        );
    }
}

/// The instance variable that is the constant one.
pub open spec fn one_variable() -> Variable {
    Variable { witness: false, index: 0 }
}

/// A constraint system with its assignment.
#[derive(Debug)]
pub struct ConstraintSystem {
    instance: Vec<FieldElement>,
    witness: Vec<FieldElement>,
    constraints: Vec<Constraint>,
}

impl ConstraintSystem {
    /// The values of the instance variables, the constant one first.
    pub closed spec fn spec_instance(&self) -> Seq<nat> {
        values(self.instance@)
    }

    /// The values of the witness variables.
    pub closed spec fn spec_witness(&self) -> Seq<nat> {
        values(self.witness@)
    }

    /// The constraints.
    pub closed spec fn spec_constraints(&self) -> Seq<Constraint> {
        self.constraints@
    }

    /// The public inputs: the instance variables after the constant one.
    pub open spec fn spec_public_inputs(&self) -> Seq<nat> {
        self.spec_instance().skip(1)
    }

    /// The invariant of a system: its first instance variable is the
    /// constant one, and its constraints speak of its own variables only.
    pub open spec fn wf(&self) -> bool {
        &&& self.spec_instance().len() >= 1
        &&& self.spec_instance()[0] == 1
        &&& forall|i: int|
            0 <= i < self.spec_constraints().len() ==> constraint_in_range(
                #[trigger] self.spec_constraints()[i],
                self.spec_instance().len(),
                self.spec_witness().len(),
            )
    }

    /// Whether the assignment meets every constraint.
    pub open spec fn spec_satisfied(&self) -> bool {
        all_hold(self.spec_constraints(), self.spec_instance(), self.spec_witness())
    }

    /// Whether this system came from `older` by adding variables and
    /// constraints.
    pub open spec fn extends(&self, older: &ConstraintSystem) -> bool {
        &&& is_prefix(older.spec_instance(), self.spec_instance())
        &&& is_prefix(older.spec_witness(), self.spec_witness())
        &&& older.spec_constraints().len() <= self.spec_constraints().len()
        &&& forall|i: int|
            0 <= i < older.spec_constraints().len() ==> self.spec_constraints()[i]
                == #[trigger] older.spec_constraints()[i]
    }

    /// Whether this system came from `older` by adding witness variables and
    /// constraints, its public inputs being the same.
    pub open spec fn grows_from(&self, older: &ConstraintSystem) -> bool {
        &&& self.extends(older)
        &&& self.spec_instance() == older.spec_instance()
    }

    /// A system with no variable but the constant one and no constraint.
    pub fn new() -> (cs: Self)
        ensures
            cs.wf(),
            cs.spec_satisfied(),
            cs.spec_public_inputs() == Seq::<nat>::empty(),
            cs.spec_witness() == Seq::<nat>::empty(),
            cs.spec_constraints() == Seq::<Constraint>::empty(),
    {
        let mut instance = Vec::new();
        instance.push(FieldElement::one());
        let cs = ConstraintSystem { instance, witness: Vec::new(), constraints: Vec::new() };
        assert(cs.spec_public_inputs() =~= Seq::<nat>::empty());
        assert(cs.spec_witness() =~= Seq::<nat>::empty());
        cs
    }

    /// The number of constraints.
    pub fn num_constraints(&self) -> (n: usize)
        ensures
            n == self.spec_constraints().len(),
    {
        self.constraints.len()
    }

    /// The number of instance variables, the constant one included.
    pub fn num_instance_variables(&self) -> (n: usize)
        ensures
            n == self.spec_instance().len(),
    {
        self.instance.len()
    }

    /// The number of witness variables.
    pub fn num_witness_variables(&self) -> (n: usize)
        ensures
            n == self.spec_witness().len(),
    {
        self.witness.len()
    }

    /// The values of the instance variables, the constant one first.
    pub fn instance_assignment(&self) -> (a: &[FieldElement])
        ensures
            values(a@) == self.spec_instance(),
    {
        self.instance.as_slice()
    }

    /// The values of the witness variables.
    pub fn witness_assignment(&self) -> (a: &[FieldElement])
        ensures
            values(a@) == self.spec_witness(),
    {
        self.witness.as_slice()
    }

    /// The constraints.
    pub fn constraints(&self) -> (c: &[Constraint])
        ensures
            c@ == self.spec_constraints(),
    {
        self.constraints.as_slice()
    }

    /// The public inputs: the values of the instance variables after the
    /// constant one.
    pub fn public_inputs(&self) -> (inputs: Vec<FieldElement>)
        requires
            self.wf(),
        ensures
            values(inputs@) == self.spec_public_inputs(),
    {
        let mut inputs: Vec<FieldElement> = Vec::new();
        let mut i: usize = 1;
        while i < self.instance.len()
            invariant
                1 <= i <= self.instance@.len(),
                inputs@.len() == i - 1,
                forall|j: int| 0 <= j < i - 1 ==> (#[trigger] inputs@[j])@ == self.instance@[j + 1]@,
            decreases self.instance@.len() - i,
        {
            inputs.push(self.instance[i]);
            i += 1;
        }
        assert(values(inputs@) =~= self.spec_public_inputs());
        inputs
    }

    /// The value of a combination under the assignment of this system.
    pub open spec fn eval_spec(&self, terms: Seq<Term>) -> nat {
        lc_eval(terms, self.spec_instance(), self.spec_witness())
    }

    /// Whether every variable of a combination belongs to this system.
    pub open spec fn holds_terms(&self, terms: Seq<Term>) -> bool {
        terms_in_range(terms, self.spec_instance().len(), self.spec_witness().len())
    }

    /// The value of one variable.
    fn value_of(&self, v: Variable) -> (r: FieldElement)
        requires
            in_range(v, self.spec_instance().len(), self.spec_witness().len()),
        ensures
            r@ == assigned(self.spec_instance(), self.spec_witness(), v),
    {
        if v.witness {
            self.witness[v.index]
        } else {
            self.instance[v.index]
        }
    }

    /// Evaluates a combination under the assignment.
    pub fn evaluate(&self, terms: &[Term]) -> (r: FieldElement)
        requires
            self.holds_terms(terms@),
        ensures
            r@ == self.eval_spec(terms@),
    {
        let mut acc = FieldElement::zero();
        let mut i: usize = 0;
        while i < terms.len()
            invariant
                i <= terms@.len(),
                self.holds_terms(terms@),
                acc@ == self.eval_spec(terms@.subrange(0, i as int)),
            decreases terms@.len() - i,
        {
            let t = terms[i];
            assert(in_range(terms@[i as int].variable, self.spec_instance().len(), self.spec_witness().len()));
            let v = self.value_of(t.variable);
            acc = acc.add(&t.coeff.mul(&v));
            i += 1;
            proof {
                let prefix = terms@.subrange(0, i as int);
                assert(prefix.drop_last() =~= terms@.subrange(0, i - 1));
                assert(prefix.last() == terms@[i - 1]);
            }
        }
        assert(terms@.subrange(0, i as int) =~= terms@);
        acc
    }

    /// Whether the assignment meets the constraint at `index`.
    fn check_constraint(&self, index: usize) -> (ok: bool)
        requires
            self.wf(),
            index < self.spec_constraints().len(),
        ensures
            ok == constraint_holds(
                self.spec_constraints()[index as int],
                self.spec_instance(),
                self.spec_witness(),
            ),
    {
        let c = &self.constraints[index];
        assert(constraint_in_range(
            self.spec_constraints()[index as int],
            self.spec_instance().len(),
            self.spec_witness().len(),
        ));
        let a = self.evaluate(c.a.as_slice());
        let b = self.evaluate(c.b.as_slice());
        let cc = self.evaluate(c.c.as_slice());
        a.mul(&b).equals(&cc)
    }

    /// Whether the assignment meets every constraint, found by evaluating
    /// each of them.
    pub fn is_satisfied(&self) -> (ok: bool)
        requires
            self.wf(),
        ensures
            ok == self.spec_satisfied(),
    {
        let mut i: usize = 0;
        while i < self.constraints.len()
            invariant
                i <= self.constraints@.len(),
                self.wf(),
                forall|j: int|
                    0 <= j < i ==> constraint_holds(
                        #[trigger] self.spec_constraints()[j],
                        self.spec_instance(),
                        self.spec_witness(),
                    ),
            decreases self.constraints@.len() - i,
        {
            if !self.check_constraint(i) {
                return false;
            }
            i += 1;
        }
        true
    }

    /// The index of the first constraint that the assignment does not meet,
    /// if there is one.
    pub fn which_is_unsatisfied(&self) -> (first: Option<usize>)
        requires
            self.wf(),
        ensures
            first is None <==> self.spec_satisfied(),
            first is Some ==> first->0 < self.spec_constraints().len() && !constraint_holds(
                self.spec_constraints()[first->0 as int],
                self.spec_instance(),
                self.spec_witness(),
            ) && forall|j: int|
                0 <= j < first->0 ==> constraint_holds(
                    #[trigger] self.spec_constraints()[j],
                    self.spec_instance(),
                    self.spec_witness(),
                ),
    {
        let mut i: usize = 0;
        while i < self.constraints.len()
            invariant
                i <= self.constraints@.len(),
                self.wf(),
                forall|j: int|
                    0 <= j < i ==> constraint_holds(
                        #[trigger] self.spec_constraints()[j],
                        self.spec_instance(),
                        self.spec_witness(),
                    ),
            decreases self.constraints@.len() - i,
        {
            if !self.check_constraint(i) {
                return Some(i);
            }
            i += 1;
        }
        None
    }

    /// Adds an instance variable with the given value: one more public
    /// input.
    pub fn new_input(&mut self, value: FieldElement) -> (v: FpVar)
        requires
            old(self).wf(),
        ensures
            final(self).wf(),
            final(self).extends(old(self)),
            final(self).spec_public_inputs() == old(self).spec_public_inputs().push(value@),
            final(self).spec_witness() == old(self).spec_witness(),
            final(self).spec_constraints() == old(self).spec_constraints(),
            final(self).spec_satisfied() == old(self).spec_satisfied(),
            v.valid_in(final(self)),
            v.spec_terms().len() == 1,
            v@ == value@,
    {
        let index = self.instance.len();
        self.instance.push(value);
        let t = Term { coeff: FieldElement::one(), variable: Variable { witness: false, index } };
        let mut terms = Vec::new();
        terms.push(t);
        proof {
            assert(self.spec_instance() =~= old(self).spec_instance().push(value@));
            assert(self.spec_public_inputs() =~= old(self).spec_public_inputs().push(value@));
            lemma_satisfied_after_growth(old(self), self);
            assert(terms@ =~= seq![t]);
            lemma_eval_single(t, self.spec_instance(), self.spec_witness());
            use_type_invariant(&value);
            lemma_fmul_unit(value@);
        }
        FpVar { terms, value }
    }

    /// Adds a witness variable with the given value.
    pub fn new_witness(&mut self, value: FieldElement) -> (v: FpVar)
        requires
            old(self).wf(),
        ensures
            final(self).wf(),
            final(self).grows_from(old(self)),
            final(self).spec_witness() == old(self).spec_witness().push(value@),
            final(self).spec_constraints() == old(self).spec_constraints(),
            final(self).spec_satisfied() == old(self).spec_satisfied(),
            v.valid_in(final(self)),
            v.spec_terms().len() == 1,
            v@ == value@,
    {
        let index = self.witness.len();
        self.witness.push(value);
        let t = Term { coeff: FieldElement::one(), variable: Variable { witness: true, index } };
        let mut terms = Vec::new();
        terms.push(t);
        proof {
            assert(self.spec_witness() =~= old(self).spec_witness().push(value@));
            lemma_satisfied_after_growth(old(self), self);
            assert(terms@ =~= seq![t]);
            lemma_eval_single(t, self.spec_instance(), self.spec_witness());
            use_type_invariant(&value);
            lemma_fmul_unit(value@);
        }
        FpVar { terms, value }
    }

    /// Adds the constraint that the product of `a` and `b` be `c`.
    #[verifier::rlimit(50)]
    pub fn enforce_constraint(&mut self, a: &FpVar, b: &FpVar, c: &FpVar)
        requires
            old(self).wf(),
            a.valid_in(old(self)),
            b.valid_in(old(self)),
            c.valid_in(old(self)),
        ensures
            final(self).wf(),
            final(self).grows_from(old(self)),
            final(self).spec_witness() == old(self).spec_witness(),
            final(self).spec_constraints().len() == old(self).spec_constraints().len() + 1,
            final(self).spec_satisfied() == (old(self).spec_satisfied() && fmul(a@, b@) == c@),
    {
        let constraint = Constraint { a: a.terms.clone(), b: b.terms.clone(), c: c.terms.clone() };
        proof {
            assert(constraint.a@ =~= a.terms@);
            assert(constraint.b@ =~= b.terms@);
            assert(constraint.c@ =~= c.terms@);
        }
        self.constraints.push(constraint);
        proof {
            let n = old(self).spec_constraints().len() as int;
            assert(self.spec_constraints()[n] == constraint);
            assert forall|i: int| 0 <= i < n implies self.spec_constraints()[i]
                == #[trigger] old(self).spec_constraints()[i] by {}
            assert(constraint_holds(constraint, self.spec_instance(), self.spec_witness()) == (fmul(
                a@,
                b@,
            ) == c@));
            if self.spec_satisfied() {
                assert(constraint_holds(
                    self.spec_constraints()[n],
                    self.spec_instance(),
                    self.spec_witness(),
                ));
                assert forall|i: int| 0 <= i < n implies constraint_holds(
                    #[trigger] old(self).spec_constraints()[i],
                    old(self).spec_instance(),
                    old(self).spec_witness(),
                ) by {
                    assert(constraint_holds(
                        self.spec_constraints()[i],
                        self.spec_instance(),
                        self.spec_witness(),
                    ));
                }
            }
            if old(self).spec_satisfied() && fmul(a@, b@) == c@ {
                assert forall|i: int| 0 <= i < n + 1 implies constraint_holds(
                    #[trigger] self.spec_constraints()[i],
                    self.spec_instance(),
                    self.spec_witness(),
                ) by {
                    if i < n {
                        assert(constraint_holds(
                            old(self).spec_constraints()[i],
                            old(self).spec_instance(),
                            old(self).spec_witness(),
                        ));
                    }
                }
            }
            assert forall|i: int| 0 <= i < n + 1 implies constraint_in_range(
                #[trigger] self.spec_constraints()[i],
                self.spec_instance().len(),
                self.spec_witness().len(),
            ) by {
                if i < n {
                    assert(constraint_in_range(
                        old(self).spec_constraints()[i],
                        old(self).spec_instance().len(),
                        old(self).spec_witness().len(),
                    ));
                }
            }
        }
    }
}

/// A system that grew by variables alone is satisfied just where it was.
pub proof fn lemma_satisfied_after_growth(older: &ConstraintSystem, newer: &ConstraintSystem)
    requires
        older.wf(),
        is_prefix(older.spec_instance(), newer.spec_instance()),
        is_prefix(older.spec_witness(), newer.spec_witness()),
        newer.spec_constraints() == older.spec_constraints(),
    ensures
        newer.spec_satisfied() == older.spec_satisfied(),
        newer.wf(),
{
    assert forall|i: int| 0 <= i < older.spec_constraints().len() implies constraint_holds(
        #[trigger] older.spec_constraints()[i],
        newer.spec_instance(),
        newer.spec_witness(),
    ) == constraint_holds(
        older.spec_constraints()[i],
        older.spec_instance(),
        older.spec_witness(),
    ) by {
        let c = older.spec_constraints()[i];
        assert(constraint_in_range(c, older.spec_instance().len(), older.spec_witness().len()));
        lemma_eval_extension(
            c.a@,
            older.spec_instance(),
            older.spec_witness(),
            newer.spec_instance(),
            newer.spec_witness(),
        );
        lemma_eval_extension(
            c.b@,
            older.spec_instance(),
            older.spec_witness(),
            newer.spec_instance(),
            newer.spec_witness(),
        );
        lemma_eval_extension(
            c.c@,
            older.spec_instance(),
            older.spec_witness(),
            newer.spec_instance(),
            newer.spec_witness(),
        );
    }
    assert forall|i: int| 0 <= i < newer.spec_constraints().len() implies constraint_in_range(
        #[trigger] newer.spec_constraints()[i],
        newer.spec_instance().len(),
        newer.spec_witness().len(),
    ) by {
        assert(constraint_in_range(
            older.spec_constraints()[i],
            older.spec_instance().len(),
            older.spec_witness().len(),
        ));
    }
}

/// A variable of a circuit: a linear combination of the variables of a
/// constraint system, with the value that it has under the assignment.
#[derive(Debug)]
pub struct FpVar {
    terms: Vec<Term>,
    value: FieldElement,
}

impl View for FpVar {
    type V = nat;

    /// The value of the variable.
    closed spec fn view(&self) -> nat {
        self.value@
    }
}

impl Clone for FpVar {
    fn clone(&self) -> (r: Self)
        ensures
            r@ == self@,
            r.spec_terms() == self.spec_terms(),
    {
        let terms = self.terms.clone();
        assert(terms@ =~= self.terms@);
        FpVar { terms, value: self.value }
    }
}

impl FpVar {
    /// The linear combination behind the variable.
    pub closed spec fn spec_terms(&self) -> Seq<Term> {
        self.terms@
    }

    /// Whether the variable belongs to a system: it speaks of variables of
    /// that system only, and its value is the value of its combination under
    /// the assignment of that system.
    pub open spec fn valid_in(&self, cs: &ConstraintSystem) -> bool {
        &&& cs.holds_terms(self.spec_terms())
        &&& self@ == cs.eval_spec(self.spec_terms())
    }

    /// The value of the variable.
    pub fn value(&self) -> (v: FieldElement)
        ensures
            v@ == self@,
    {
        self.value
    }

    /// The linear combination behind the variable.
    pub fn terms(&self) -> (t: &[Term])
        ensures
            t@ == self.spec_terms(),
    {
        self.terms.as_slice()
    }

    /// The variable that is the given constant in every system.
    pub fn constant(c: FieldElement) -> (v: Self)
        ensures
            v@ == c@,
            v.spec_terms().len() == 1,
            forall|cs: &ConstraintSystem| cs.wf() ==> #[trigger] v.valid_in(cs),
    {
        let t = Term { coeff: c, variable: Variable { witness: false, index: 0 } };
        let mut terms = Vec::new();
        terms.push(t);
        proof {
            assert(terms@ =~= seq![t]);
            use_type_invariant(&c);
            lemma_fmul_unit(c@);
            assert forall|cs: &ConstraintSystem| cs.wf() implies c@ == #[trigger] cs.eval_spec(
                terms@,
            ) && cs.holds_terms(terms@) by {
                lemma_eval_single(t, cs.spec_instance(), cs.spec_witness());
            }
        }
        FpVar { terms, value: c }
    }

    /// The constant zero.
    pub fn zero() -> (v: Self)
        ensures
            v@ == 0,
            v.spec_terms().len() == 1,
            forall|cs: &ConstraintSystem| cs.wf() ==> #[trigger] v.valid_in(cs),
    {
        FpVar::constant(FieldElement::zero())
    }

    /// The constant one.
    pub fn one() -> (v: Self)
        ensures
            v@ == 1,
            v.spec_terms().len() == 1,
            forall|cs: &ConstraintSystem| cs.wf() ==> #[trigger] v.valid_in(cs),
    {
        FpVar::constant(FieldElement::one())
    }

    /// The sum of two variables. It costs no constraint.
    pub fn add(&self, other: &FpVar) -> (r: Self)
        ensures
            r@ == fadd(self@, other@),
            r.spec_terms() == self.spec_terms() + other.spec_terms(),
            forall|cs: &ConstraintSystem|
                self.valid_in(cs) && other.valid_in(cs) ==> #[trigger] r.valid_in(cs),
    {
        let mut terms = self.terms.clone();
        let mut i: usize = 0;
        assert(terms@ =~= self.terms@);
        while i < other.terms.len()
            invariant
                i <= other.terms@.len(),
                terms@ == self.terms@ + other.terms@.subrange(0, i as int),
            decreases other.terms@.len() - i,
        {
            terms.push(other.terms[i]);
            i += 1;
            assert(terms@ =~= self.terms@ + other.terms@.subrange(0, i as int));
        }
        assert(other.terms@.subrange(0, i as int) =~= other.terms@);
        let value = self.value.add(&other.value);
        proof {
            assert forall|cs: &ConstraintSystem|
                self.valid_in(cs) && other.valid_in(cs) implies cs.holds_terms(terms@)
                && value@ == #[trigger] cs.eval_spec(terms@) by {
                lemma_eval_concat(
                    self.terms@,
                    other.terms@,
                    cs.spec_instance(),
                    cs.spec_witness(),
                );
                assert forall|j: int| 0 <= j < terms@.len() implies in_range(
                    (#[trigger] terms@[j]).variable,
                    cs.spec_instance().len(),
                    cs.spec_witness().len(),
                ) by {
                    if j < self.terms@.len() {
                        assert(terms@[j] == self.terms@[j]);
                    } else {
                        assert(terms@[j] == other.terms@[j - self.terms@.len()]);
                    }
                }
            }
        }
        FpVar { terms, value }
    }

    /// The variable times a constant. It costs no constraint.
    pub fn scale(&self, k: &FieldElement) -> (r: Self)
        ensures
            r@ == fmul(k@, self@),
            r.spec_terms().len() == self.spec_terms().len(),
            forall|cs: &ConstraintSystem| self.valid_in(cs) ==> #[trigger] r.valid_in(cs),
    {
        let mut terms: Vec<Term> = Vec::new();
        let mut i: usize = 0;
        while i < self.terms.len()
            invariant
                i <= self.terms@.len(),
                terms@.len() == i,
                forall|j: int|
                    0 <= j < i ==> (#[trigger] terms@[j]).variable == self.terms@[j].variable
                        && terms@[j].coeff@ == fmul(k@, self.terms@[j].coeff@),
            decreases self.terms@.len() - i,
        {
            let t = self.terms[i];
            terms.push(Term { coeff: k.mul(&t.coeff), variable: t.variable });
            i += 1;
        }
        let value = k.mul(&self.value);
        proof {
            assert(scaled(self.terms@, k@, terms@));
            assert forall|cs: &ConstraintSystem| self.valid_in(cs) implies cs.holds_terms(terms@)
                && value@ == #[trigger] cs.eval_spec(terms@) by {
                lemma_eval_scaled(
                    self.terms@,
                    k@,
                    terms@,
                    cs.spec_instance(),
                    cs.spec_witness(),
                );
                assert forall|j: int| 0 <= j < terms@.len() implies in_range(
                    (#[trigger] terms@[j]).variable,
                    cs.spec_instance().len(),
                    cs.spec_witness().len(),
                ) by {
                    assert(in_range(
                        self.terms@[j].variable,
                        cs.spec_instance().len(),
                        cs.spec_witness().len(),
                    ));
                }
            }
        }
        FpVar { terms, value }
    }

    /// The difference of two variables. It costs no constraint.
    pub fn sub(&self, other: &FpVar) -> (r: Self)
        ensures
            r@ == fsub(self@, other@),
            r.spec_terms().len() == self.spec_terms().len() + other.spec_terms().len(),
            forall|cs: &ConstraintSystem|
                self.valid_in(cs) && other.valid_in(cs) ==> #[trigger] r.valid_in(cs),
    {
        let minus_one = FieldElement::zero().sub(&FieldElement::one());
        let negated = other.scale(&minus_one);
        let r = self.add(&negated);
        proof {
            lemma_fsub_as_fadd(self@, other@);
            assert(minus_one@ == (modulus() - 1) as nat) by {
                vstd::arithmetic::div_mod::lemma_small_mod((modulus() - 1) as nat, modulus());
                vstd::arithmetic::div_mod::lemma_mod_multiples_vanish(1, -1, modulus() as int);
            }
            assert forall|cs: &ConstraintSystem|
                self.valid_in(cs) && other.valid_in(cs) implies #[trigger] r.valid_in(cs) by {
                assert(negated.valid_in(cs));
            }
        }
        r
    }

    /// The variable plus a constant. It costs no constraint.
    pub fn add_constant(&self, c: &FieldElement) -> (r: Self)
        ensures
            r@ == fadd(self@, c@),
            r.spec_terms().len() == self.spec_terms().len() + 1,
            forall|cs: &ConstraintSystem| cs.wf() && self.valid_in(cs) ==> #[trigger] r.valid_in(cs),
    {
        let k = FpVar::constant(*c);
        let r = self.add(&k);
        proof {
            assert forall|cs: &ConstraintSystem| cs.wf() && self.valid_in(cs) implies #[trigger] r.valid_in(
                cs,
            ) by {
                assert(k.valid_in(cs));
            }
        }
        r
    }

    /// The product of two variables: a fresh witness, bound by one
    /// constraint.
    pub fn mul(&self, other: &FpVar, cs: &mut ConstraintSystem) -> (r: Self)
        requires
            old(cs).wf(),
            self.valid_in(old(cs)),
            other.valid_in(old(cs)),
        ensures
            final(cs).wf(),
            final(cs).grows_from(old(cs)),
            final(cs).spec_witness().len() == old(cs).spec_witness().len() + 1,
            final(cs).spec_constraints().len() == old(cs).spec_constraints().len() + 1,
            final(cs).spec_satisfied() == old(cs).spec_satisfied(),
            r.valid_in(final(cs)),
            r.spec_terms().len() == 1,
            r@ == fmul(self@, other@),
    {
        let product = self.value.mul(&other.value);
        let r = cs.new_witness(product);
        proof {
            lemma_valid_in_extension(self, old(cs), cs);
            lemma_valid_in_extension(other, old(cs), cs);
        }
        let ghost middle = *cs;
        cs.enforce_constraint(self, other, &r);
        proof {
            lemma_valid_in_extension(&r, &middle, cs);
        }
        r
    }

    /// The square of the variable: a fresh witness, bound by one constraint.
    pub fn square(&self, cs: &mut ConstraintSystem) -> (r: Self)
        requires
            old(cs).wf(),
            self.valid_in(old(cs)),
        ensures
            final(cs).wf(),
            final(cs).grows_from(old(cs)),
            final(cs).spec_witness().len() == old(cs).spec_witness().len() + 1,
            final(cs).spec_constraints().len() == old(cs).spec_constraints().len() + 1,
            final(cs).spec_satisfied() == old(cs).spec_satisfied(),
            r.valid_in(final(cs)),
            r.spec_terms().len() == 1,
            r@ == fmul(self@, self@),
    {
        self.mul(self, cs)
    }

    /// A fresh witness with the value of the variable, bound to it by one
    /// constraint. What comes back is a combination of one term.
    pub fn reduce(&self, cs: &mut ConstraintSystem) -> (r: Self)
        requires
            old(cs).wf(),
            self.valid_in(old(cs)),
        ensures
            final(cs).wf(),
            final(cs).grows_from(old(cs)),
            final(cs).spec_witness().len() == old(cs).spec_witness().len() + 1,
            final(cs).spec_constraints().len() == old(cs).spec_constraints().len() + 1,
            final(cs).spec_satisfied() == old(cs).spec_satisfied(),
            r.valid_in(final(cs)),
            r.spec_terms().len() == 1,
            r@ == self@,
    {
        let one = FpVar::one();
        let r = cs.new_witness(self.value);
        proof {
            lemma_valid_in_extension(self, old(cs), cs);
            use_type_invariant(&self.value);
            lemma_fmul_unit(self@);
        }
        let ghost middle = *cs;
        cs.enforce_constraint(self, &one, &r);
        proof {
            lemma_valid_in_extension(&r, &middle, cs);
        }
        r
    }

    /// Adds the constraint that two variables be equal.
    pub fn enforce_equal(&self, other: &FpVar, cs: &mut ConstraintSystem)
        requires
            old(cs).wf(),
            self.valid_in(old(cs)),
            other.valid_in(old(cs)),
        ensures
            final(cs).wf(),
            final(cs).grows_from(old(cs)),
            final(cs).spec_witness() == old(cs).spec_witness(),
            final(cs).spec_constraints().len() == old(cs).spec_constraints().len() + 1,
            final(cs).spec_satisfied() == (old(cs).spec_satisfied() && self@ == other@),
    {
        let one = FpVar::one();
        proof {
            use_type_invariant(&self.value);
            lemma_fmul_unit(self@);
        }
        cs.enforce_constraint(self, &one, other);
    }
}

/// A variable of a circuit whose value is zero or one.
#[derive(Debug)]
pub struct Boolean {
    var: FpVar,
}

impl View for Boolean {
    type V = bool;

    /// Whether the value is one.
    closed spec fn view(&self) -> bool {
        self.var@ == 1
    }
}

impl Clone for Boolean {
    fn clone(&self) -> (r: Self)
        ensures
            r@ == self@,
            r.spec_var() == self.spec_var(),
            r.spec_terms() == self.spec_terms(),
    {
        proof {
            use_type_invariant(self);
        }
        Boolean { var: self.var.clone() }
    }
}

impl Boolean {
    /// The value of a boolean variable is zero or one.
    #[verifier::type_invariant]
    pub closed spec fn is_bit(self) -> bool {
        self.var@ <= 1
    }

    /// The value of the variable as a number: one for true, zero for false.
    pub closed spec fn spec_var(&self) -> nat {
        self.var@
    }

    /// The linear combination behind the variable.
    pub closed spec fn spec_terms(&self) -> Seq<Term> {
        self.var.spec_terms()
    }

    /// Whether the variable belongs to a system.
    pub open spec fn valid_in(&self, cs: &ConstraintSystem) -> bool {
        &&& cs.holds_terms(self.spec_terms())
        &&& self.spec_var() == cs.eval_spec(self.spec_terms())
    }

    /// The value of the variable.
    pub fn value(&self) -> (b: bool)
        ensures
            b == self@,
    {
        self.var.value.equals(&FieldElement::one())
    }

    /// The variable as a field variable, whose value is zero or one.
    pub fn to_fp(&self) -> (v: FpVar)
        ensures
            v@ == self.spec_var(),
            v@ == if self@ {
                1nat
            } else {
                0nat
            },
            v.spec_terms() == self.spec_terms(),
    {
        proof {
            use_type_invariant(self);
        }
        self.var.clone()
    }

    /// The variable that is the given constant in every system.
    pub fn constant(b: bool) -> (v: Self)
        ensures
            v@ == b,
            forall|cs: &ConstraintSystem| cs.wf() ==> #[trigger] v.valid_in(cs),
    {
        let var = FpVar::constant(FieldElement::from_bool(b));
        let v = Boolean { var };
        proof {
            assert forall|cs: &ConstraintSystem| cs.wf() implies #[trigger] v.valid_in(cs) by {
                assert(v.var.valid_in(cs));
            }
        }
        v
    }

    /// A fresh witness with the given boolean value, bound to zero or one by
    /// one constraint.
    #[verifier::rlimit(50)]
    pub fn new_witness(cs: &mut ConstraintSystem, b: bool) -> (v: Self)
        requires
            old(cs).wf(),
        ensures
            final(cs).wf(),
            final(cs).grows_from(old(cs)),
            final(cs).spec_satisfied() == old(cs).spec_satisfied(),
            v.valid_in(final(cs)),
            v@ == b,
    {
        let var = cs.new_witness(FieldElement::from_bool(b));
        let ghost first = *cs;
        let less_one = var.sub(&FpVar::one());
        let zero = FpVar::zero();
        proof {
            assert(less_one.valid_in(cs));
            assert(zero.valid_in(cs));
            lemma_fmul_unit(0);
            lemma_fsub_zero(1, 1);
            lemma_fsub_zero(0, 1);
            lemma_fmul_unit(fsub(0, 1));
        }
        cs.enforce_constraint(&var, &less_one, &zero);
        proof {
            lemma_valid_in_extension(&var, &first, cs);
            lemma_grows_transitive(old(cs), &first, cs);
        }
        Boolean { var }
    }

    /// One of two variables: `when_true` where this one is true, `when_false`
    /// where it is false. It costs one constraint.
    #[verifier::rlimit(50)]
    pub fn select(&self, when_true: &FpVar, when_false: &FpVar, cs: &mut ConstraintSystem) -> (r:
        FpVar)
        requires
            old(cs).wf(),
            self.valid_in(old(cs)),
            when_true.valid_in(old(cs)),
            when_false.valid_in(old(cs)),
        ensures
            final(cs).wf(),
            final(cs).grows_from(old(cs)),
            final(cs).spec_satisfied() == old(cs).spec_satisfied(),
            r.valid_in(final(cs)),
            r@ == if self@ {
                when_true@
            } else {
                when_false@
            },
    {
        proof {
            use_type_invariant(self);
            use_type_invariant(&when_true.value);
            use_type_invariant(&when_false.value);
        }
        let difference = when_true.sub(when_false);
        assert(difference.valid_in(cs));
        assert(self.var.valid_in(cs));
        let part = self.var.mul(&difference, cs);
        proof {
            lemma_valid_in_extension(when_false, old(cs), cs);
        }
        let r = when_false.add(&part);
        proof {
            assert(r.valid_in(cs));
            lemma_fsub_zero(when_true@, when_false@);
            lemma_fmul_unit(fsub(when_true@, when_false@));
            lemma_fsub_then_fadd(when_true@, when_false@);
            lemma_fadd_zero(when_false@);
        }
        r
    }

    /// The disjunction of two boolean variables. It costs one constraint.
    #[verifier::rlimit(50)]
    pub fn or(&self, other: &Boolean, cs: &mut ConstraintSystem) -> (r: Boolean)
        requires
            old(cs).wf(),
            self.valid_in(old(cs)),
            other.valid_in(old(cs)),
        ensures
            final(cs).wf(),
            final(cs).grows_from(old(cs)),
            final(cs).spec_satisfied() == old(cs).spec_satisfied(),
            r.valid_in(final(cs)),
            r@ == (self@ || other@),
    {
        proof {
            use_type_invariant(self);
            use_type_invariant(other);
        }
        assert(self.var.valid_in(cs));
        assert(other.var.valid_in(cs));
        let both = self.var.mul(&other.var, cs);
        proof {
            lemma_valid_in_extension(&self.var, old(cs), cs);
            lemma_valid_in_extension(&other.var, old(cs), cs);
        }
        let sum = self.var.add(&other.var);
        let var = sum.sub(&both);
        proof {
            assert(sum.valid_in(cs));
            assert(var.valid_in(cs));
            lemma_fmul_unit(0);
            lemma_fmul_unit(1);
            lemma_fadd_zero(0);
            lemma_fadd_zero(1);
            lemma_fsub_zero(0, 0);
            lemma_fsub_zero(1, 0);
            assert(fadd(1, 1) == 2) by {
                vstd::arithmetic::div_mod::lemma_small_mod(2, modulus());
            }
            assert(fsub(2, 1) == 1) by {
                vstd::arithmetic::div_mod::lemma_small_mod(1, modulus());
            }
            assert(fsub(1, 0) == 1) by {
                vstd::arithmetic::div_mod::lemma_small_mod(1, modulus());
            }
        }
        Boolean { var }
    }

    /// Adds the constraint that the variable be true.
    pub fn enforce_true(&self, cs: &mut ConstraintSystem)
        requires
            old(cs).wf(),
            self.valid_in(old(cs)),
        ensures
            final(cs).wf(),
            final(cs).grows_from(old(cs)),
            final(cs).spec_satisfied() == (old(cs).spec_satisfied() && self@),
    {
        let one = FpVar::one();
        assert(self.var.valid_in(cs));
        self.var.enforce_equal(&one, cs);
    }

    /// Adds the constraint that the variable be false.
    pub fn enforce_false(&self, cs: &mut ConstraintSystem)
        requires
            old(cs).wf(),
            self.valid_in(old(cs)),
        ensures
            final(cs).wf(),
            final(cs).grows_from(old(cs)),
            final(cs).spec_satisfied() == (old(cs).spec_satisfied() && !self@),
    {
        proof {
            use_type_invariant(self);
        }
        let zero = FpVar::zero();
        assert(self.var.valid_in(cs));
        self.var.enforce_equal(&zero, cs);
    }
}

impl FpVar {
    /// Whether two variables are equal, as a boolean variable. It costs two
    /// witnesses and two constraints: with `d` the difference, `i` its
    /// inverse or zero and `r` the result, `d * i = 1 - r` and `d * r = 0`.
    #[verifier::rlimit(50)]
    pub fn is_eq(&self, other: &FpVar, cs: &mut ConstraintSystem) -> (r: Boolean)
        requires
            old(cs).wf(),
            self.valid_in(old(cs)),
            other.valid_in(old(cs)),
        ensures
            final(cs).wf(),
            final(cs).grows_from(old(cs)),
            final(cs).spec_satisfied() == old(cs).spec_satisfied(),
            r.valid_in(final(cs)),
            r@ == (self@ == other@),
    {
        proof {
            use_type_invariant(&self.value);
            use_type_invariant(&other.value);
            lemma_fsub_zero(self@, other@);
        }
        let difference = self.sub(other);
        assert(difference.valid_in(cs));
        let same = difference.value.is_zero();
        let inverse = match difference.value.inverse() {
            Some(i) => i,
            None => FieldElement::zero(),
        };
        let result = cs.new_witness(FieldElement::from_bool(same));
        let ghost first = *cs;
        let inverse_var = cs.new_witness(inverse);
        let ghost second = *cs;
        proof {
            lemma_grows_transitive(old(cs), &first, &second);
            lemma_valid_in_extension(&difference, old(cs), &second);
            lemma_valid_in_extension(&result, &first, &second);
        }
        let rest = FpVar::one().sub(&result);
        let zero = FpVar::zero();
        proof {
            assert(rest.valid_in(cs));
            assert(zero.valid_in(cs));
            lemma_fmul_unit(0);
            lemma_fmul_unit(difference@);
            lemma_fsub_zero(1, 1);
            lemma_fsub_zero(1, 0);
            assert(fsub(1, 0) == 1) by {
                vstd::arithmetic::div_mod::lemma_small_mod(1, modulus());
            }
        }
        cs.enforce_constraint(&difference, &inverse_var, &rest);
        let ghost third = *cs;
        proof {
            lemma_grows_transitive(old(cs), &second, &third);
            lemma_valid_in_extension(&difference, &second, &third);
            lemma_valid_in_extension(&result, &second, &third);
            lemma_valid_in_extension(&zero, &second, &third);
        }
        cs.enforce_constraint(&difference, &result, &zero);
        proof {
            lemma_grows_transitive(old(cs), &third, cs);
            lemma_valid_in_extension(&result, &third, cs);
        }
        Boolean { var: result }
    }
}

/// A variable of a system belongs to every system that came from it.
pub broadcast proof fn lemma_valid_in_extension(
    v: &FpVar,
    older: &ConstraintSystem,
    newer: &ConstraintSystem,
)
    requires
        #[trigger] v.valid_in(older),
        #[trigger] newer.extends(older),
    ensures
        v.valid_in(newer),
{
    lemma_eval_extension(
        v.spec_terms(),
        older.spec_instance(),
        older.spec_witness(),
        newer.spec_instance(),
        newer.spec_witness(),
    );
    assert forall|j: int| 0 <= j < v.spec_terms().len() implies in_range(
        (#[trigger] v.spec_terms()[j]).variable,
        newer.spec_instance().len(),
        newer.spec_witness().len(),
    ) by {
        assert(in_range(
            v.spec_terms()[j].variable,
            older.spec_instance().len(),
            older.spec_witness().len(),
        ));
    }
}

/// The values of a sequence of variables.
pub open spec fn var_values(vars: Seq<FpVar>) -> Seq<nat> {
    vars.map_values(|v: FpVar| v@)
}

/// Whether every variable of a sequence belongs to a system.
pub open spec fn all_valid_in(vars: Seq<FpVar>, cs: &ConstraintSystem) -> bool {
    forall|i: int| 0 <= i < vars.len() ==> (#[trigger] vars[i]).valid_in(cs)
}

/// Variables that all belong to a system all belong to every system that
/// came from it.
pub broadcast proof fn lemma_all_valid_in_extension(
    vars: Seq<FpVar>,
    older: &ConstraintSystem,
    newer: &ConstraintSystem,
)
    requires
        #[trigger] all_valid_in(vars, older),
        #[trigger] newer.extends(older),
    ensures
        all_valid_in(vars, newer),
{
    assert forall|i: int| 0 <= i < vars.len() implies (#[trigger] vars[i]).valid_in(newer) by {
        assert(vars[i].valid_in(older));
        lemma_valid_in_extension(&vars[i], older, newer);
    }
}

/// The values of a sequence of boolean variables.
pub open spec fn bool_values(vars: Seq<Boolean>) -> Seq<bool> {
    vars.map_values(|v: Boolean| v@)
}

/// Whether every boolean variable of a sequence belongs to a system.
pub open spec fn all_bools_valid_in(vars: Seq<Boolean>, cs: &ConstraintSystem) -> bool {
    forall|i: int| 0 <= i < vars.len() ==> (#[trigger] vars[i]).valid_in(cs)
}

/// Boolean variables that all belong to a system all belong to every system
/// that came from it.
pub broadcast proof fn lemma_all_bools_valid_in_extension(
    vars: Seq<Boolean>,
    older: &ConstraintSystem,
    newer: &ConstraintSystem,
)
    requires
        #[trigger] all_bools_valid_in(vars, older),
        #[trigger] newer.extends(older),
    ensures
        all_bools_valid_in(vars, newer),
{
    assert forall|i: int| 0 <= i < vars.len() implies (#[trigger] vars[i]).valid_in(newer) by {
        assert(vars[i].valid_in(older));
        lemma_bool_valid_in_extension(&vars[i], older, newer);
    }
}

/// A boolean variable of a system belongs to every system that came from
/// it.
pub broadcast proof fn lemma_bool_valid_in_extension(
    b: &Boolean,
    older: &ConstraintSystem,
    newer: &ConstraintSystem,
)
    requires
        #[trigger] b.valid_in(older),
        #[trigger] newer.extends(older),
    ensures
        b.valid_in(newer),
{
    lemma_eval_extension(
        b.spec_terms(),
        older.spec_instance(),
        older.spec_witness(),
        newer.spec_instance(),
        newer.spec_witness(),
    );
    assert forall|j: int| 0 <= j < b.spec_terms().len() implies in_range(
        (#[trigger] b.spec_terms()[j]).variable,
        newer.spec_instance().len(),
        newer.spec_witness().len(),
    ) by {
        assert(in_range(
            b.spec_terms()[j].variable,
            older.spec_instance().len(),
            older.spec_witness().len(),
        ));
    }
}

/// What can go wrong while the constraints of a circuit are written.
#[derive(Clone, Copy, Debug, PartialEq, Eq, Structural)]
pub enum SynthesisError {
    /// A value that the circuit needs was not given.
    AssignmentMissing,
}

/// Extension goes on: what extends a system that extends a third extends
/// the third.
pub broadcast proof fn lemma_extends_transitive(
    a: &ConstraintSystem,
    b: &ConstraintSystem,
    c: &ConstraintSystem,
)
    requires
        #[trigger] b.extends(a),
        #[trigger] c.extends(b),
    ensures
        c.extends(a),
{
    assert forall|i: int| 0 <= i < a.spec_constraints().len() implies c.spec_constraints()[i]
        == #[trigger] a.spec_constraints()[i] by {
        assert(b.spec_constraints()[i] == a.spec_constraints()[i]);
        assert(c.spec_constraints()[i] == b.spec_constraints()[i]);
    }
}

/// Growth goes on: what came from a system that came from a third came from
/// the third.
pub broadcast proof fn lemma_grows_transitive(
    a: &ConstraintSystem,
    b: &ConstraintSystem,
    c: &ConstraintSystem,
)
    requires
        #[trigger] b.grows_from(a),
        #[trigger] c.grows_from(b),
    ensures
        c.grows_from(a),
{
    assert forall|i: int| 0 <= i < a.spec_constraints().len() implies c.spec_constraints()[i]
        == #[trigger] a.spec_constraints()[i] by {
        assert(b.spec_constraints()[i] == a.spec_constraints()[i]);
        assert(c.spec_constraints()[i] == b.spec_constraints()[i]);
    }
}

} // verus!
