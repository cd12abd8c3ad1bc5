//! Errors of proof verification, and the public inputs that each relation is
//! verified against.

use crate::field::{values, FieldElement};
use vstd::prelude::*;
use vstd::string::StringExecFns;

verus! {

/// What can go wrong while a proof is verified.
#[derive(Debug)]
pub enum VerifyError {
    /// The proof system could not run the verification.
    Verification(String),
    /// The public inputs do not have the shape that the relation expects.
    InvalidInputs,
}

impl VerifyError {
    /// The error as a sequence of characters.
    pub open spec fn message_spec(self) -> Seq<char> {
        match self {
            VerifyError::Verification(s) => "Verification failed: "@ + s@,
            VerifyError::InvalidInputs => "Invalid public inputs"@,
        }
    }

    /// The error as a line of text.
    pub fn message(&self) -> (out: String)
        ensures
            out@ == self.message_spec(),
    {
        match self {
            VerifyError::Verification(s) => String::from_str("Verification failed: ").concat(
                s.as_str(),
            ),
            VerifyError::InvalidInputs => String::from_str("Invalid public inputs"),
        }
    }
}

/// The public inputs of the state transition, in the order in which the
/// verifier takes them: the signal, the nonce, the inventory and the
/// registry root.
pub fn state_transition_public_inputs(
    signal_hash: FieldElement,
    nonce: u64,
    inventory_id: FieldElement,
    registry_root: FieldElement,
) -> (inputs: Vec<FieldElement>)
    ensures
        values(inputs@) == seq![signal_hash@, nonce as nat, inventory_id@, registry_root@],
{
    let mut inputs = Vec::new();
    inputs.push(signal_hash);
    inputs.push(FieldElement::from_u64(nonce));
    inputs.push(inventory_id);
    inputs.push(registry_root);
    assert(values(inputs@) =~= seq![signal_hash@, nonce as nat, inventory_id@, registry_root@]);
    inputs
}

/// The public input of a membership or capacity relation: the one hash.
pub fn single_public_input(public_hash: FieldElement) -> (inputs: Vec<FieldElement>)
    ensures
        values(inputs@) == seq![public_hash@],
{
    let mut inputs = Vec::new();
    inputs.push(public_hash);
    assert(values(inputs@) =~= seq![public_hash@]);
    inputs
}

} // verus!
