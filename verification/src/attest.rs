//! Attestation verification: no key returned by the gateway is trusted
//! or persisted before its evidence has been held against the expected
//! measurement and bound to that very key.

use vstd::prelude::*;
use crate::ledger::{bytes_eq, clone_bytes};

verus! {

/// Evidence the gateway returns alongside a public key.
#[derive(Clone, Debug)]
pub struct AttestationEvidence {
    /// The measurement of the code the service claims to run.
    pub measurement: Vec<u8>,
    /// The public key the evidence is bound to.
    pub bound_public_key: Vec<u8>,
    /// The signature chain over the evidence, validated externally.
    pub signature_chain: Vec<u8>,
}

/// Why verification failed.
#[derive(Debug, Clone, PartialEq, Eq)]
pub enum AttestationError {
    /// No expected measurement was configured; verification fails
    /// closed rather than being skipped.
    MissingMeasurement,
    /// The evidence's measurement is not the expected one.
    MeasurementMismatch,
    /// The evidence is bound to a different key than the one returned.
    KeyBindingMismatch,
    /// The signature chain could not be validated.
    EvidenceUnverifiable,
}

/// The verification decision as a function of its inputs. `chain_valid`
/// is the external chain validator's verdict on the evidence.
pub open spec fn spec_verify(
    measurement: Seq<u8>,
    bound_public_key: Seq<u8>,
    expected_measurement: Option<Seq<u8>>,
    returned_key: Seq<u8>,
    chain_valid: bool,
) -> Result<Seq<u8>, AttestationError> {
    if expected_measurement is None {
        Err(AttestationError::MissingMeasurement)
    } else if measurement != expected_measurement->0 {
        Err(AttestationError::MeasurementMismatch)
    } else if bound_public_key != returned_key {
        Err(AttestationError::KeyBindingMismatch)
    } else if !chain_valid {
        Err(AttestationError::EvidenceUnverifiable)
    } else {
        Ok(returned_key)
    }
}

/// Verifies evidence against the expected measurement and the key the
/// same response returned. `chain_valid` is the verdict of the external
/// signature-chain validator on this evidence; the key is trusted
/// only when every condition holds.
pub fn verify(
    evidence: &AttestationEvidence,
    expected_measurement: &Option<Vec<u8>>,
    returned_key: &Vec<u8>,
    chain_valid: bool,
) -> (r: Result<Vec<u8>, AttestationError>)
    ensures
        match r {
            Ok(pk) => pk@ == returned_key@ && spec_verify(
                evidence.measurement@,
                evidence.bound_public_key@,
                match expected_measurement {
                    Some(m) => Some(m@),
                    None => None,
                },
                returned_key@,
                chain_valid,
            ) == Ok::<Seq<u8>, AttestationError>(returned_key@),
            Err(e) => spec_verify(
                evidence.measurement@,
                evidence.bound_public_key@,
                match expected_measurement {
                    Some(m) => Some(m@),
                    None => None,
                },
                returned_key@,
                chain_valid,
            ) == Err::<Seq<u8>, AttestationError>(e),
        },
{
    let expected = match expected_measurement {
        Some(m) => m,
        None => {
            return Err(AttestationError::MissingMeasurement);
        },
    };
    if !bytes_eq(&evidence.measurement, expected) {
        return Err(AttestationError::MeasurementMismatch);
    }
    if !bytes_eq(&evidence.bound_public_key, returned_key) {
        return Err(AttestationError::KeyBindingMismatch);
    }
    if !chain_valid {
        return Err(AttestationError::EvidenceUnverifiable);
    }
    Ok(clone_bytes(returned_key))
}

/// Key binding is checked regardless of signature validity: whenever the
/// evidence is bound to a different key than the one returned (and the
/// measurement itself is the expected one), verification fails with the
/// binding error, whether or not the chain would validate.
pub proof fn lemma_binding_checked_before_chain(
    measurement: Seq<u8>,
    bound_public_key: Seq<u8>,
    expected_measurement: Seq<u8>,
    returned_key: Seq<u8>,
    chain_valid: bool,
)
    requires
        measurement == expected_measurement,
        bound_public_key != returned_key,
    ensures
        spec_verify(
            measurement,
            bound_public_key,
            Some(expected_measurement),
            returned_key,
            chain_valid,
        ) == Err::<Seq<u8>, AttestationError>(AttestationError::KeyBindingMismatch),
{
}

} // verus!
