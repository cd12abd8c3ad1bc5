use ark_bn254::{Bn254, Fr};
use ark_ff::{BigInt, PrimeField};
use ark_groth16::{Groth16, Proof, ProvingKey, VerifyingKey};
use ark_relations::r1cs::{
    ConstraintSynthesizer, ConstraintSystemRef, LinearCombination, SynthesisError, Variable,
};
use ark_snark::SNARK;
use ark_std::rand::rngs::StdRng;
use ark_std::rand::SeedableRng;
use inventory_circuits::capacity_smt::CapacitySMTCircuit;
use inventory_circuits::field::FieldElement;
use inventory_circuits::item_exists_smt::ItemExistsSMTCircuit;
use inventory_circuits::r1cs::{ConstraintSystem, Term};
use inventory_circuits::signal::OpType;
use inventory_circuits::smt::merkle_proof::MerkleProof;
use inventory_circuits::smt::tree::{SparseMerkleTree, DEFAULT_DEPTH};
use inventory_circuits::state_transition::StateTransitionCircuit;

fn fe(x: u64) -> FieldElement {
    FieldElement::from_u64(x)
}

fn to_fr(x: &FieldElement) -> Fr {
    Fr::from_bigint(BigInt::new(x.to_limbs())).unwrap()
}

/// A constraint system of the library, written into one of the proof system.
struct Replay {
    system: ConstraintSystem,
}

fn combination(terms: &[Term], instance: &[Variable], witness: &[Variable]) -> LinearCombination<Fr> {
    let mut out: LinearCombination<Fr> = LinearCombination::zero();
    for t in terms {
        let v = if t.variable.witness {
            witness[t.variable.index]
        } else {
            instance[t.variable.index]
        };
        out = out + (to_fr(&t.coeff), v);
    }
    out
}

impl ConstraintSynthesizer<Fr> for Replay {
    fn generate_constraints(self, cs: ConstraintSystemRef<Fr>) -> Result<(), SynthesisError> {
        let mut instance = vec![Variable::One];
        for v in &self.system.instance_assignment()[1..] {
            instance.push(cs.new_input_variable(|| Ok(to_fr(v)))?);
        }
        let mut witness = Vec::new();
        for v in self.system.witness_assignment() {
            witness.push(cs.new_witness_variable(|| Ok(to_fr(v)))?);
        }
        for c in self.system.constraints() {
            cs.enforce_constraint(
                combination(&c.a, &instance, &witness),
                combination(&c.b, &instance, &witness),
                combination(&c.c, &instance, &witness),
            )?;
        }
        Ok(())
    }
}

fn setup(shape: ConstraintSystem, rng: &mut StdRng) -> (ProvingKey<Bn254>, VerifyingKey<Bn254>) {
    Groth16::<Bn254>::circuit_specific_setup(Replay { system: shape }, rng).unwrap()
}

fn prove(pk: &ProvingKey<Bn254>, system: ConstraintSystem, rng: &mut StdRng) -> Proof<Bn254> {
    Groth16::<Bn254>::prove(pk, Replay { system }, rng).unwrap()
}

fn transition_shape() -> ConstraintSystem {
    let mut cs = ConstraintSystem::new();
    StateTransitionCircuit::empty().generate_constraints(&mut cs).unwrap();
    cs
}

fn membership_shape() -> ConstraintSystem {
    // the empty circuit holds no proof; the shape is that of any circuit of
    // the default depth
    let circuit = ItemExistsSMTCircuit::new(
        fe(0),
        0,
        fe(0),
        0,
        0,
        0,
        MerkleProof::empty(DEFAULT_DEPTH),
    );
    let mut cs = ConstraintSystem::new();
    circuit.generate_constraints(&mut cs).unwrap();
    cs
}

fn capacity_shape() -> ConstraintSystem {
    let mut cs = ConstraintSystem::new();
    CapacitySMTCircuit::new(fe(0), 0, fe(0), 0).generate_constraints(&mut cs).unwrap();
    cs
}

fn transition(
    new_quantity: u64,
    amount: u64,
    op_type: OpType,
    nonce: u64,
) -> (StateTransitionCircuit, FieldElement, FieldElement) {
    let mut tree = SparseMerkleTree::from_items(&[(1, 100)], DEFAULT_DEPTH);
    let old_root = tree.root();
    let proof = tree.get_proof(1);
    tree.update(1, new_quantity);
    let new_root = tree.root();

    let item_volume = 10u64;
    let registry_root = fe(99999);
    let inventory_id = fe(12345678);
    let circuit = StateTransitionCircuit::new(
        old_root,
        100 * item_volume,
        fe(12345),
        new_root,
        new_quantity * item_volume,
        fe(67890),
        1,
        100,
        new_quantity,
        amount,
        op_type,
        proof,
        item_volume,
        registry_root,
        10000,
        nonce,
        inventory_id,
    );
    (circuit, inventory_id, registry_root)
}

#[test]
fn test_state_transition_deposit_full_proof() {
    let mut rng = StdRng::seed_from_u64(1);
    let (pk, vk) = setup(transition_shape(), &mut rng);

    let nonce = 0u64;
    let (circuit, inventory_id, registry_root) = transition(150, 50, OpType::Deposit, nonce);
    let signal_hash = circuit.signal_hash.unwrap();
    assert_eq!(circuit.new_quantity, Some(150));
    assert_eq!(circuit.new_volume, Some(1500));

    let mut cs = ConstraintSystem::new();
    circuit.generate_constraints(&mut cs).unwrap();
    assert!(cs.is_satisfied());
    let groth_proof = prove(&pk, cs, &mut rng);

    let public_inputs =
        vec![to_fr(&signal_hash), Fr::from(nonce), to_fr(&inventory_id), to_fr(&registry_root)];
    let valid = Groth16::<Bn254>::verify(&vk, &public_inputs, &groth_proof).unwrap();
    assert!(valid, "StateTransition deposit proof verification failed");

    // tampering with any one public input makes the verification fail
    for i in 0..public_inputs.len() {
        let mut tampered = public_inputs.clone();
        tampered[i] += Fr::from(1u64);
        let valid = Groth16::<Bn254>::verify(&vk, &tampered, &groth_proof).unwrap();
        assert!(!valid, "public input {} was tampered with", i);
    }
}

#[test]
fn test_state_transition_withdraw_full_proof() {
    let mut rng = StdRng::seed_from_u64(2);
    let (pk, vk) = setup(transition_shape(), &mut rng);

    let nonce = 5u64;
    let (circuit, inventory_id, registry_root) = transition(70, 30, OpType::Withdraw, nonce);
    let signal_hash = circuit.signal_hash.unwrap();

    let mut cs = ConstraintSystem::new();
    circuit.generate_constraints(&mut cs).unwrap();
    let from_system: Vec<Fr> = cs.public_inputs().iter().map(to_fr).collect();
    let groth_proof = prove(&pk, cs, &mut rng);

    let public_inputs =
        vec![to_fr(&signal_hash), Fr::from(nonce), to_fr(&inventory_id), to_fr(&registry_root)];
    assert_eq!(from_system, public_inputs);
    let valid = Groth16::<Bn254>::verify(&vk, &public_inputs, &groth_proof).unwrap();
    assert!(valid, "StateTransition withdraw proof verification failed");
}

#[test]
fn a_withdrawal_of_everything_proves_and_verifies() {
    let mut rng = StdRng::seed_from_u64(6);
    let (pk, vk) = setup(transition_shape(), &mut rng);

    let nonce = 9u64;
    let (circuit, inventory_id, registry_root) = transition(0, 100, OpType::Withdraw, nonce);
    let signal_hash = circuit.signal_hash.unwrap();
    assert_eq!(circuit.new_quantity, Some(0));
    assert_eq!(
        circuit.new_inventory_root,
        Some(SparseMerkleTree::new(DEFAULT_DEPTH).root())
    );

    let mut cs = ConstraintSystem::new();
    circuit.generate_constraints(&mut cs).unwrap();
    assert!(cs.is_satisfied());
    let groth_proof = prove(&pk, cs, &mut rng);

    let public_inputs =
        vec![to_fr(&signal_hash), Fr::from(nonce), to_fr(&inventory_id), to_fr(&registry_root)];
    let valid = Groth16::<Bn254>::verify(&vk, &public_inputs, &groth_proof).unwrap();
    assert!(valid, "the proof of a full withdrawal was not accepted");
}

#[test]
fn test_item_exists_smt_full_proof() {
    let mut rng = StdRng::seed_from_u64(3);
    let (pk, vk) = setup(membership_shape(), &mut rng);

    let tree = SparseMerkleTree::from_items(&[(42, 100)], DEFAULT_DEPTH);
    let root = tree.root();
    let proof = tree.get_proof(42);

    let circuit = ItemExistsSMTCircuit::new(root, 1000, fe(12345), 42, 100, 50, proof);
    let public_hash = circuit.public_hash.unwrap();

    let mut cs = ConstraintSystem::new();
    circuit.generate_constraints(&mut cs).unwrap();
    let groth_proof = prove(&pk, cs, &mut rng);

    let public_inputs = vec![to_fr(&public_hash)];
    let valid = Groth16::<Bn254>::verify(&vk, &public_inputs, &groth_proof).unwrap();
    assert!(valid, "ItemExists SMT proof verification failed");
}

#[test]
fn test_capacity_smt_full_proof() {
    let mut rng = StdRng::seed_from_u64(4);
    let (pk, vk) = setup(capacity_shape(), &mut rng);

    let tree = SparseMerkleTree::from_items(&[(1, 100), (2, 50)], DEFAULT_DEPTH);
    let root = tree.root();

    let circuit = CapacitySMTCircuit::new(root, 500, fe(12345), 1000);
    let public_hash = circuit.public_hash.unwrap();

    let mut cs = ConstraintSystem::new();
    circuit.generate_constraints(&mut cs).unwrap();
    let groth_proof = prove(&pk, cs, &mut rng);

    let public_inputs = vec![to_fr(&public_hash)];
    let valid = Groth16::<Bn254>::verify(&vk, &public_inputs, &groth_proof).unwrap();
    assert!(valid, "Capacity SMT proof verification failed");
}

#[test]
fn test_invalid_proof_rejected() {
    let mut rng = StdRng::seed_from_u64(5);
    let (pk, vk) = setup(membership_shape(), &mut rng);

    let tree = SparseMerkleTree::from_items(&[(1, 100)], DEFAULT_DEPTH);
    let root = tree.root();
    let proof = tree.get_proof(1);

    let circuit = ItemExistsSMTCircuit::new(root, 1000, fe(12345), 1, 100, 50, proof);

    let mut cs = ConstraintSystem::new();
    circuit.generate_constraints(&mut cs).unwrap();
    let groth_proof = prove(&pk, cs, &mut rng);

    let wrong_public_inputs = vec![Fr::from(99999u64)];

    let valid = Groth16::<Bn254>::verify(&vk, &wrong_public_inputs, &groth_proof).unwrap();
    assert!(!valid, "Invalid proof should be rejected");
}

#[test]
fn the_replayed_system_is_satisfied_just_where_the_library_says_so() {
    for (amount, expected) in [(50u64, true), (60u64, false)] {
        let (circuit, _, _) = transition(150, amount, OpType::Deposit, 0);
        let mut cs = ConstraintSystem::new();
        circuit.generate_constraints(&mut cs).unwrap();
        assert_eq!(cs.is_satisfied(), expected);
        let constraints = cs.num_constraints();
        let ark = ark_relations::r1cs::ConstraintSystem::<Fr>::new_ref();
        Replay { system: cs }.generate_constraints(ark.clone()).unwrap();
        assert_eq!(ark.is_satisfied().unwrap(), expected);
        assert_eq!(ark.num_constraints(), constraints);
        assert_eq!(ark.num_instance_variables(), 5);
    }
}
