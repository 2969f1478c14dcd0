use enclave_gate::attest::{generate_and_endorse, AttestationConfig, EndorsedCert, ROOT_OF_TRUST_ID};
use enclave_gate::error::ServiceError;
use enclave_gate::policy::{RejectReason, TrustPolicy, VerifyOutcome};

fn attestation_config() -> AttestationConfig {
    AttestationConfig {
        algorithm: b"sgx_epid".to_vec(),
        url: b"https://as.example.com".to_vec(),
        key: b"test-api-key".to_vec(),
        spid: b"0123456789abcdef".to_vec(),
    }
}

#[test]
fn endorsed_identity_accepted_by_matching_policy() {
    let identity = generate_and_endorse(&attestation_config(), 42).unwrap();
    let policy = TrustPolicy { accepted_measurements: vec![41, 42], root_id: ROOT_OF_TRUST_ID };
    assert_eq!(policy.verify(&identity.cert), VerifyOutcome::Accept);
}

#[test]
fn excluded_measurement_rejected_despite_valid_chain() {
    let cert = EndorsedCert { measurement: 7, chained_root: ROOT_OF_TRUST_ID, quote_fresh: true };
    let policy = TrustPolicy { accepted_measurements: vec![8, 9], root_id: ROOT_OF_TRUST_ID };
    assert_eq!(
        policy.verify(&cert),
        VerifyOutcome::Reject(RejectReason::MeasurementNotAllowed)
    );
}

#[test]
fn empty_allow_list_rejects_every_peer() {
    let policy = TrustPolicy { accepted_measurements: vec![], root_id: ROOT_OF_TRUST_ID };
    for measurement in [0u64, 1, 42, u64::MAX] {
        let cert = EndorsedCert {
            measurement,
            chained_root: ROOT_OF_TRUST_ID,
            quote_fresh: true,
        };
        assert_eq!(
            policy.verify(&cert),
            VerifyOutcome::Reject(RejectReason::MeasurementNotAllowed)
        );
    }
}

#[test]
fn untrusted_root_rejected_first() {
    let cert = EndorsedCert { measurement: 5, chained_root: 99, quote_fresh: false };
    let policy = TrustPolicy { accepted_measurements: vec![5], root_id: ROOT_OF_TRUST_ID };
    assert_eq!(policy.verify(&cert), VerifyOutcome::Reject(RejectReason::UntrustedRoot));
}

#[test]
fn stale_quote_rejected() {
    let cert = EndorsedCert { measurement: 5, chained_root: ROOT_OF_TRUST_ID, quote_fresh: false };
    let policy = TrustPolicy { accepted_measurements: vec![5], root_id: ROOT_OF_TRUST_ID };
    assert_eq!(policy.verify(&cert), VerifyOutcome::Reject(RejectReason::StaleQuote));
}

#[test]
fn endorsement_fails_on_unusable_configuration() {
    let mut broken = attestation_config();
    broken.url = Vec::new();
    assert_eq!(
        generate_and_endorse(&broken, 42).unwrap_err(),
        ServiceError::AttestationFailure
    );
    let mut no_key = attestation_config();
    no_key.key = Vec::new();
    assert_eq!(
        generate_and_endorse(&no_key, 42).unwrap_err(),
        ServiceError::AttestationFailure
    );
}

#[test]
fn endorsed_certificate_carries_measurement_and_root() {
    let identity = generate_and_endorse(&attestation_config(), 1234).unwrap();
    assert_eq!(identity.cert.measurement, 1234);
    assert_eq!(identity.cert.chained_root, ROOT_OF_TRUST_ID);
    assert!(identity.cert.quote_fresh);
    assert!(!identity.private_key.is_empty());
}
