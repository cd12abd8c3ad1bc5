use inventory_circuits::prove::{ProveError, Rejection};
use inventory_circuits::setup::SetupError;
use inventory_circuits::verify::VerifyError;

#[test]
fn prove_errors_read_as_lines() {
    assert_eq!(
        ProveError::ProofGeneration("x".to_string()).message(),
        "Proof generation failed: x"
    );
    assert_eq!(
        ProveError::InvalidState("y".to_string()).message(),
        "Invalid inventory state: y"
    );
    assert_eq!(ProveError::Serialization("z".to_string()).message(), "Serialization failed: z");
}

#[test]
fn setup_errors_read_as_lines() {
    assert_eq!(SetupError::CircuitSetup("a".to_string()).message(), "Circuit setup failed: a");
    assert_eq!(SetupError::Serialization("b".to_string()).message(), "Serialization failed: b");
    assert_eq!(
        SetupError::Deserialization("c".to_string()).message(),
        "Deserialization failed: c"
    );
    assert_eq!(SetupError::Io("d".to_string()).message(), "IO error: d");
}

#[test]
fn verify_errors_read_as_lines() {
    assert_eq!(
        VerifyError::Verification("v".to_string()).message(),
        "Verification failed: v"
    );
    assert_eq!(VerifyError::InvalidInputs.message(), "Invalid public inputs");
}

#[test]
fn rejections_become_invalid_states() {
    let all = [
        (Rejection::ItemOutOfRange, "Item id exceeds tree capacity"),
        (Rejection::InsufficientQuantity, "Insufficient quantity"),
        (Rejection::QuantityOverflow, "Quantity overflow"),
        (Rejection::VolumeOverflow, "Volume overflow"),
        (Rejection::VolumeUnderflow, "Volume underflow"),
        (Rejection::CapacityExceeded, "Capacity exceeded"),
        (Rejection::CapacityOutOfRange, "Capacity out of range"),
    ];
    for (why, text) in all {
        match why.to_error() {
            ProveError::InvalidState(s) => assert_eq!(s, text),
            other => panic!("{:?}", other),
        }
    }
}
