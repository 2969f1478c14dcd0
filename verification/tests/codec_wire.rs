use enclave_gate::attest::AttestationConfig;
use enclave_gate::codec::{decode_config, encode_config};
use enclave_gate::config::{audited_measurement, AuditEntry, ServiceConfig};

fn wire_config() -> ServiceConfig {
    ServiceConfig {
        listen_address: b"127.0.0.1:7779".to_vec(),
        dependency_name: b"authentication".to_vec(),
        dependency_address: b"10.0.0.5:7776".to_vec(),
        attestation: AttestationConfig {
            algorithm: b"sgx_epid".to_vec(),
            url: b"https://as.example.com".to_vec(),
            key: b"test-api-key".to_vec(),
            spid: b"0123456789abcdef".to_vec(),
        },
        audit: vec![
            AuditEntry { service_name: b"authentication".to_vec(), measurement: 99 },
            AuditEntry { service_name: b"storage".to_vec(), measurement: 7 },
        ],
    }
}

#[test]
fn encode_then_decode_round_trips() {
    let config = wire_config();
    let bytes = encode_config(&config);
    let back = decode_config(&bytes).unwrap();
    assert_eq!(back.listen_address, config.listen_address);
    assert_eq!(back.dependency_name, config.dependency_name);
    assert_eq!(back.dependency_address, config.dependency_address);
    assert_eq!(back.attestation.algorithm, config.attestation.algorithm);
    assert_eq!(back.attestation.url, config.attestation.url);
    assert_eq!(back.attestation.key, config.attestation.key);
    assert_eq!(back.attestation.spid, config.attestation.spid);
    assert_eq!(back.audit.len(), 2);
    assert_eq!(back.audit[0].service_name, b"authentication".to_vec());
    assert_eq!(back.audit[0].measurement, 99);
    assert_eq!(back.audit[1].service_name, b"storage".to_vec());
    assert_eq!(back.audit[1].measurement, 7);
}

#[test]
fn empty_fields_round_trip() {
    let config = ServiceConfig {
        listen_address: Vec::new(),
        dependency_name: Vec::new(),
        dependency_address: Vec::new(),
        attestation: AttestationConfig {
            algorithm: Vec::new(),
            url: Vec::new(),
            key: Vec::new(),
            spid: Vec::new(),
        },
        audit: Vec::new(),
    };
    let bytes = encode_config(&config);
    // seven empty fields and an empty entry list: eight length words
    assert_eq!(bytes.len(), 32);
    let back = decode_config(&bytes).unwrap();
    assert!(back.listen_address.is_empty());
    assert!(back.audit.is_empty());
}

#[test]
fn known_encoding_of_one_field() {
    let config = ServiceConfig {
        listen_address: b"ab".to_vec(),
        dependency_name: Vec::new(),
        dependency_address: Vec::new(),
        attestation: AttestationConfig {
            algorithm: Vec::new(),
            url: Vec::new(),
            key: Vec::new(),
            spid: Vec::new(),
        },
        audit: Vec::new(),
    };
    let bytes = encode_config(&config);
    let mut expected = vec![2, 0, 0, 0, b'a', b'b'];
    expected.extend_from_slice(&[0; 28]);
    assert_eq!(bytes, expected);
}

#[test]
fn truncated_input_is_rejected() {
    let bytes = encode_config(&wire_config());
    for cut in [0usize, 1, 3, 7, bytes.len() - 1] {
        assert!(decode_config(&bytes[..cut].to_vec()).is_none(), "cut {cut}");
    }
}

#[test]
fn trailing_bytes_are_rejected() {
    let mut bytes = encode_config(&wire_config());
    bytes.push(0);
    assert!(decode_config(&bytes).is_none());
}

#[test]
fn overlong_length_prefix_is_rejected() {
    // a single field announcing more bytes than the input holds
    let bytes = vec![255, 255, 255, 255, 1, 2, 3];
    assert!(decode_config(&bytes).is_none());
}

#[test]
fn measurement_decodes_little_endian() {
    let mut config = wire_config();
    config.audit = vec![AuditEntry {
        service_name: b"x".to_vec(),
        measurement: 0x0102030405060708,
    }];
    let bytes = encode_config(&config);
    let tail: Vec<u8> = bytes[bytes.len() - 8..].to_vec();
    assert_eq!(tail, vec![8, 7, 6, 5, 4, 3, 2, 1]);
    let back = decode_config(&bytes).unwrap();
    assert_eq!(back.audit[0].measurement, 0x0102030405060708);
}

#[test]
fn duplicate_audit_names_resolve_to_first() {
    let audit = vec![
        AuditEntry { service_name: b"authentication".to_vec(), measurement: 11 },
        AuditEntry { service_name: b"authentication".to_vec(), measurement: 22 },
    ];
    assert_eq!(audited_measurement(&audit, &b"authentication".to_vec()), Some(11));
    assert_eq!(audited_measurement(&audit, &b"storage".to_vec()), None);
}
