use enclave_gate::attest::{generate_and_endorse, AttestationConfig, AttestedIdentity, EndorsedCert, ROOT_OF_TRUST_ID};
use enclave_gate::channel::{client_config, serve_connection, server_config_without_verifier, RequestHandler};
use enclave_gate::codec::encode_config;
use enclave_gate::config::{AuditEntry, ServiceConfig};
use enclave_gate::dispatch::{dispatch, new_context, start_service};
use enclave_gate::error::ServiceError;
use enclave_gate::lifecycle::LifecycleState;
use enclave_gate::policy::TrustPolicy;

fn channel_attestation() -> AttestationConfig {
    AttestationConfig {
        algorithm: b"sgx_epid".to_vec(),
        url: b"https://as.example.com".to_vec(),
        key: b"test-api-key".to_vec(),
        spid: b"0123456789abcdef".to_vec(),
    }
}

struct ReverseHandler;

impl RequestHandler for ReverseHandler {
    // ghost-only statement of what this handler answers; never run
    fn spec_handle(&self, _request: vstd::prelude::Seq<u8>) -> vstd::prelude::Seq<u8> {
        unreachable!()
    }

    fn handle(&self, request: &Vec<u8>) -> Vec<u8> {
        let mut r = request.clone();
        r.reverse();
        r
    }
}

#[test]
fn malformed_identity_refused_by_channel_factory() {
    let identity = AttestedIdentity {
        cert: EndorsedCert { measurement: 1, chained_root: ROOT_OF_TRUST_ID, quote_fresh: true },
        private_key: Vec::new(),
    };
    assert_eq!(
        server_config_without_verifier(&identity).unwrap_err(),
        ServiceError::ChannelConfigError
    );
    let policy = TrustPolicy { accepted_measurements: vec![1], root_id: ROOT_OF_TRUST_ID };
    assert_eq!(client_config(&identity, policy).unwrap_err(), ServiceError::ChannelConfigError);
}

#[test]
fn empty_allow_list_refused_by_channel_factory() {
    let identity = generate_and_endorse(&channel_attestation(), 5).unwrap();
    let policy = TrustPolicy { accepted_measurements: Vec::new(), root_id: ROOT_OF_TRUST_ID };
    assert_eq!(client_config(&identity, policy).unwrap_err(), ServiceError::ChannelConfigError);
}

#[test]
fn handshake_accepts_allowed_peer_and_rejects_others() {
    let client_identity = generate_and_endorse(&channel_attestation(), 7).unwrap();
    let server_identity = generate_and_endorse(&channel_attestation(), 42).unwrap();

    let trusting = TrustPolicy { accepted_measurements: vec![42], root_id: ROOT_OF_TRUST_ID };
    let client = client_config(&client_identity, trusting).unwrap();
    assert!(client.handshake(&server_identity.cert).is_ok());

    let excluding = TrustPolicy { accepted_measurements: vec![43], root_id: ROOT_OF_TRUST_ID };
    let wary = client_config(&client_identity, excluding).unwrap();
    assert_eq!(
        wary.handshake(&server_identity.cert).unwrap_err(),
        ServiceError::ConnectionError
    );
}

#[test]
fn end_to_end_lifecycle_and_channel() {
    // the server enclave's measured identity
    let server_measurement: u64 = 42;
    let mut context = new_context(server_measurement);

    // InitEnclave: Uninitialized -> Ready
    assert!(dispatch(&mut context, 0, &Vec::new()).is_ok());
    assert_eq!(context.lifecycle, LifecycleState::Ready);

    // StartService with a listen address and a valid attestation config:
    // Ready -> Running
    let config = ServiceConfig {
        listen_address: b"127.0.0.1:7779".to_vec(),
        dependency_name: Vec::new(),
        dependency_address: Vec::new(),
        attestation: channel_attestation(),
        audit: vec![AuditEntry { service_name: b"authentication".to_vec(), measurement: 99 }],
    };
    let request = encode_config(&config);
    assert!(dispatch(&mut context, 1, &request).is_ok());
    assert_eq!(context.lifecycle, LifecycleState::Running);

    // the running service presents its endorsed certificate
    let running = start_service(&config, server_measurement).unwrap();
    assert_eq!(running.listen, b"127.0.0.1:7779".to_vec());
    let presented = running.server.presented_cert();

    // a client whose trust policy contains the server's measurement
    // completes the handshake and gets handle(R) back for request R
    let client_identity = generate_and_endorse(&channel_attestation(), 7).unwrap();
    let trusting = TrustPolicy {
        accepted_measurements: vec![server_measurement],
        root_id: ROOT_OF_TRUST_ID,
    };
    let client = client_config(&client_identity, trusting).unwrap();
    assert!(client.handshake(&presented).is_ok());
    let requests = vec![b"ping".to_vec(), b"abc".to_vec()];
    let responses = serve_connection(&ReverseHandler, &requests);
    assert_eq!(responses, vec![b"gnip".to_vec(), b"cba".to_vec()]);

    // a client whose trust policy excludes that measurement fails the
    // handshake
    let excluding = TrustPolicy { accepted_measurements: vec![1], root_id: ROOT_OF_TRUST_ID };
    let wary = client_config(&client_identity, excluding).unwrap();
    assert_eq!(wary.handshake(&presented).unwrap_err(), ServiceError::ConnectionError);

    // FinalizeEnclave: Running -> Finalized, and every later command is
    // an illegal transition
    assert!(dispatch(&mut context, 2, &Vec::new()).is_ok());
    assert_eq!(context.lifecycle, LifecycleState::Finalized);
    assert_eq!(
        dispatch(&mut context, 0, &Vec::new()).unwrap_err(),
        ServiceError::IllegalTransition
    );
    assert_eq!(
        dispatch(&mut context, 1, &request).unwrap_err(),
        ServiceError::IllegalTransition
    );
}
