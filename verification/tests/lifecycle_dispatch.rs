use enclave_gate::attest::AttestationConfig;
use enclave_gate::codec::encode_config;
use enclave_gate::config::{AuditEntry, ServiceConfig};
use enclave_gate::dispatch::{dispatch, new_context, start_service};
use enclave_gate::error::ServiceError;
use enclave_gate::lifecycle::{command_of_id, Command, LifecycleState};

const INIT_ENCLAVE: u32 = 0;
const START_SERVICE: u32 = 1;
const FINALIZE_ENCLAVE: u32 = 2;

fn startable_config() -> ServiceConfig {
    ServiceConfig {
        listen_address: b"127.0.0.1:7779".to_vec(),
        dependency_name: Vec::new(),
        dependency_address: Vec::new(),
        attestation: AttestationConfig {
            algorithm: b"sgx_epid".to_vec(),
            url: b"https://as.example.com".to_vec(),
            key: b"test-api-key".to_vec(),
            spid: b"0123456789abcdef".to_vec(),
        },
        audit: vec![AuditEntry { service_name: b"authentication".to_vec(), measurement: 99 }],
    }
}

#[test]
fn command_table_is_closed() {
    assert_eq!(command_of_id(INIT_ENCLAVE), Some(Command::InitEnclave));
    assert_eq!(command_of_id(START_SERVICE), Some(Command::StartService));
    assert_eq!(command_of_id(FINALIZE_ENCLAVE), Some(Command::FinalizeEnclave));
    for id in [3u32, 4, 100, u32::MAX] {
        assert_eq!(command_of_id(id), None);
    }
}

#[test]
fn unknown_command_is_a_noop() {
    let mut context = new_context(42);
    for id in [3u32, 17, u32::MAX] {
        let r = dispatch(&mut context, id, &Vec::new());
        assert_eq!(r.unwrap_err(), ServiceError::UnknownCommand);
        assert_eq!(context.lifecycle, LifecycleState::Uninitialized);
    }
}

#[test]
fn start_before_init_is_rejected() {
    let mut context = new_context(42);
    let request = encode_config(&startable_config());
    let r = dispatch(&mut context, START_SERVICE, &request);
    assert_eq!(r.unwrap_err(), ServiceError::IllegalTransition);
    assert_eq!(context.lifecycle, LifecycleState::Uninitialized);
}

#[test]
fn init_moves_to_ready() {
    let mut context = new_context(42);
    let r = dispatch(&mut context, INIT_ENCLAVE, &Vec::new());
    assert!(r.is_ok());
    assert_eq!(context.lifecycle, LifecycleState::Ready);
}

#[test]
fn init_twice_is_rejected() {
    let mut context = new_context(42);
    dispatch(&mut context, INIT_ENCLAVE, &Vec::new()).unwrap();
    let r = dispatch(&mut context, INIT_ENCLAVE, &Vec::new());
    assert_eq!(r.unwrap_err(), ServiceError::IllegalTransition);
    assert_eq!(context.lifecycle, LifecycleState::Ready);
}

#[test]
fn nonempty_init_request_is_malformed() {
    let mut context = new_context(42);
    let r = dispatch(&mut context, INIT_ENCLAVE, &vec![1, 2, 3]);
    assert_eq!(r.unwrap_err(), ServiceError::MalformedRequest);
    assert_eq!(context.lifecycle, LifecycleState::Uninitialized);
}

#[test]
fn garbage_start_request_is_malformed_before_lifecycle_check() {
    // even in a state where StartService would be illegal, decode runs
    // first and reports the malformed input
    let mut context = new_context(42);
    let r = dispatch(&mut context, START_SERVICE, &vec![9, 9]);
    assert_eq!(r.unwrap_err(), ServiceError::MalformedRequest);
    assert_eq!(context.lifecycle, LifecycleState::Uninitialized);
}

#[test]
fn start_moves_to_running() {
    let mut context = new_context(42);
    dispatch(&mut context, INIT_ENCLAVE, &Vec::new()).unwrap();
    let request = encode_config(&startable_config());
    let r = dispatch(&mut context, START_SERVICE, &request);
    assert!(r.is_ok());
    assert_eq!(context.lifecycle, LifecycleState::Running);
}

#[test]
fn attestation_failure_leaves_state_ready() {
    let mut context = new_context(42);
    dispatch(&mut context, INIT_ENCLAVE, &Vec::new()).unwrap();
    let mut config = startable_config();
    config.attestation.url = Vec::new();
    let request = encode_config(&config);
    let r = dispatch(&mut context, START_SERVICE, &request);
    assert_eq!(r.unwrap_err(), ServiceError::AttestationFailure);
    assert_eq!(context.lifecycle, LifecycleState::Ready);
}

#[test]
fn unresolved_dependency_leaves_state_ready() {
    let mut context = new_context(42);
    dispatch(&mut context, INIT_ENCLAVE, &Vec::new()).unwrap();
    let mut config = startable_config();
    config.dependency_name = b"authentication".to_vec();
    config.audit = vec![AuditEntry { service_name: b"storage".to_vec(), measurement: 7 }];
    let request = encode_config(&config);
    let r = dispatch(&mut context, START_SERVICE, &request);
    assert_eq!(r.unwrap_err(), ServiceError::ChannelConfigError);
    assert_eq!(context.lifecycle, LifecycleState::Ready);
}

#[test]
fn finalize_from_ready_and_from_running() {
    let mut from_ready = new_context(42);
    dispatch(&mut from_ready, INIT_ENCLAVE, &Vec::new()).unwrap();
    dispatch(&mut from_ready, FINALIZE_ENCLAVE, &Vec::new()).unwrap();
    assert_eq!(from_ready.lifecycle, LifecycleState::Finalized);

    let mut from_running = new_context(42);
    dispatch(&mut from_running, INIT_ENCLAVE, &Vec::new()).unwrap();
    let request = encode_config(&startable_config());
    dispatch(&mut from_running, START_SERVICE, &request).unwrap();
    dispatch(&mut from_running, FINALIZE_ENCLAVE, &Vec::new()).unwrap();
    assert_eq!(from_running.lifecycle, LifecycleState::Finalized);
}

#[test]
fn no_transition_leaves_finalized() {
    let mut context = new_context(42);
    dispatch(&mut context, INIT_ENCLAVE, &Vec::new()).unwrap();
    dispatch(&mut context, FINALIZE_ENCLAVE, &Vec::new()).unwrap();
    for id in [INIT_ENCLAVE, FINALIZE_ENCLAVE] {
        let r = dispatch(&mut context, id, &Vec::new());
        assert_eq!(r.unwrap_err(), ServiceError::IllegalTransition);
        assert_eq!(context.lifecycle, LifecycleState::Finalized);
    }
    let request = encode_config(&startable_config());
    let r = dispatch(&mut context, START_SERVICE, &request);
    assert_eq!(r.unwrap_err(), ServiceError::IllegalTransition);
    assert_eq!(context.lifecycle, LifecycleState::Finalized);
}

#[test]
fn started_service_builds_dependency_endpoint() {
    let mut config = startable_config();
    config.dependency_name = b"authentication".to_vec();
    config.dependency_address = b"10.0.0.5:7776".to_vec();
    let running = start_service(&config, 42).unwrap();
    assert_eq!(running.listen, b"127.0.0.1:7779".to_vec());
    assert_eq!(running.server.cert.measurement, 42);
    let endpoint = running.dependency.unwrap();
    assert_eq!(endpoint.address, b"10.0.0.5:7776".to_vec());
    assert_eq!(endpoint.config.policy.accepted_measurements, vec![99]);
}

#[test]
fn run_tests_smoke_checks_pass() {
    assert!(enclave_gate::run_tests());
}
