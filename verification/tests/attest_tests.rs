use secure_signer::attest::{verify, AttestationError, AttestationEvidence};

fn evidence(measurement: &[u8], bound: &[u8]) -> AttestationEvidence {
    AttestationEvidence {
        measurement: measurement.to_vec(),
        bound_public_key: bound.to_vec(),
        signature_chain: vec![0xAA; 16],
    }
}

#[test]
fn verification_passes_when_everything_matches() {
    let ev = evidence(&[1; 32], &[9; 48]);
    let r = verify(&ev, &Some(vec![1; 32]), &vec![9; 48], true);
    assert_eq!(r, Ok(vec![9; 48]));
}

#[test]
fn missing_expected_measurement_fails_closed() {
    let ev = evidence(&[1; 32], &[9; 48]);
    let r = verify(&ev, &None, &vec![9; 48], true);
    assert_eq!(r, Err(AttestationError::MissingMeasurement));
}

#[test]
fn wrong_measurement_is_rejected() {
    let ev = evidence(&[1; 32], &[9; 48]);
    let r = verify(&ev, &Some(vec![2; 32]), &vec![9; 48], true);
    assert_eq!(r, Err(AttestationError::MeasurementMismatch));
}

#[test]
fn unbound_key_is_rejected_even_with_a_valid_chain() {
    let ev = evidence(&[1; 32], &[8; 48]);
    let r = verify(&ev, &Some(vec![1; 32]), &vec![9; 48], true);
    assert_eq!(r, Err(AttestationError::KeyBindingMismatch));
}

#[test]
fn unbound_key_is_rejected_with_an_invalid_chain_too() {
    let ev = evidence(&[1; 32], &[8; 48]);
    let r = verify(&ev, &Some(vec![1; 32]), &vec![9; 48], false);
    assert_eq!(r, Err(AttestationError::KeyBindingMismatch));
}

#[test]
fn invalid_chain_is_rejected_last() {
    let ev = evidence(&[1; 32], &[9; 48]);
    let r = verify(&ev, &Some(vec![1; 32]), &vec![9; 48], false);
    assert_eq!(r, Err(AttestationError::EvidenceUnverifiable));
}
