//! The configuration a `StartService` request carries.
//!
//! A service learns from it the address to listen on, the attestation
//! configuration for its own identity, an audit list from which the
//! measurements of named peer services are resolved, and at most one named
//! dependency it will dial as a client.

use vstd::prelude::*;
use crate::attest::AttestationConfig;

verus! {

/// One audited enclave: a logical service name and the measurement its
/// published build carries.
pub struct AuditEntry {
    pub service_name: Vec<u8>,
    pub measurement: u64,
}

/// Everything `StartService` needs: where to listen, how to attest, the
/// audited measurements of peer services, and the one dependency (possibly
/// none, named by an empty string) this service dials as a client.
pub struct ServiceConfig {
    /// The address this service's own endpoint binds.
    pub listen_address: Vec<u8>,
    /// The logical name of the one dependency service to dial, empty when
    /// the service has no outbound dependency.
    pub dependency_name: Vec<u8>,
    /// The advertised address of that dependency; unused when
    /// `dependency_name` is empty.
    pub dependency_address: Vec<u8>,
    /// How this service obtains its own endorsed identity.
    pub attestation: AttestationConfig,
    /// The audit list resolving service names to measurements.
    pub audit: Vec<AuditEntry>,
}

/// The mathematical shape of a `ServiceConfig`: every byte string as a
/// sequence, every audit entry as a name/measurement pair.
#[verifier::ext_equal]
pub struct ConfigModel {
    pub listen_address: Seq<u8>,
    pub dependency_name: Seq<u8>,
    pub dependency_address: Seq<u8>,
    pub algorithm: Seq<u8>,
    pub url: Seq<u8>,
    pub key: Seq<u8>,
    pub spid: Seq<u8>,
    pub audit: Seq<(Seq<u8>, u64)>,
}

/// The model of one audit entry.
pub open spec fn entry_model(e: AuditEntry) -> (Seq<u8>, u64) {
    (e.service_name@, e.measurement)
}

impl View for ServiceConfig {
    type V = ConfigModel;

    open spec fn view(&self) -> ConfigModel {
        ConfigModel {
            listen_address: self.listen_address@,
            dependency_name: self.dependency_name@,
            dependency_address: self.dependency_address@,
            algorithm: self.attestation.algorithm@,
            url: self.attestation.url@,
            key: self.attestation.key@,
            spid: self.attestation.spid@,
            audit: self.audit@.map_values(|e: AuditEntry| entry_model(e)),
        }
    }
}

/// The attestation part of a configuration model is usable exactly when
/// all four of its fields are non-empty.
pub open spec fn model_attestation_valid(c: ConfigModel) -> bool {
    c.algorithm.len() > 0 && c.url.len() > 0 && c.key.len() > 0 && c.spid.len() > 0
}

/// `spec_audited_measurement`, restated over the model of the audit list.
pub open spec fn model_audited_measurement(entries: Seq<(Seq<u8>, u64)>, name: Seq<u8>) -> Option<
    u64,
>
    decreases entries.len(),
{
    if entries.len() == 0 {
        None
    } else if entries[0].0 == name {
        Some(entries[0].1)
    } else {
        model_audited_measurement(entries.drop_first(), name)
    }
}

/// Audit lookup commutes with taking the model of the audit list.
pub proof fn lemma_audited_measurement_model(entries: Seq<AuditEntry>, name: Seq<u8>)
    ensures
        spec_audited_measurement(entries, name) == model_audited_measurement(
            entries.map_values(|e: AuditEntry| entry_model(e)),
            name,
        ),
    decreases entries.len(),
{
    let mapped = entries.map_values(|e: AuditEntry| entry_model(e));
    if entries.len() == 0 {
    } else {
        lemma_audited_measurement_model(entries.drop_first(), name);
        assert(entries.drop_first().map_values(|e: AuditEntry| entry_model(e))
            =~= mapped.drop_first());
    }
}

/// The measurement the audit list gives a service name: that of the first
/// entry carrying the name, or nothing when no entry does.
pub open spec fn spec_audited_measurement(entries: Seq<AuditEntry>, name: Seq<u8>) -> Option<u64>
    decreases entries.len(),
{
    if entries.len() == 0 {
        None
    } else if entries[0].service_name@ == name {
        Some(entries[0].measurement)
    } else {
        spec_audited_measurement(entries.drop_first(), name)
    }
}

/// Resolves a service name to its audited measurement.
pub fn audited_measurement(entries: &Vec<AuditEntry>, name: &Vec<u8>) -> (r: Option<u64>)
    ensures
        r == spec_audited_measurement(entries@, name@),
{
    let mut i: usize = 0;
    proof {
        assert(entries@.subrange(0, entries@.len() as int) =~= entries@);
    }
    while i < entries.len()
        invariant
            i <= entries@.len(),
            spec_audited_measurement(entries@, name@) == spec_audited_measurement(
                entries@.subrange(i as int, entries@.len() as int),
                name@,
            ),
        decreases entries@.len() - i,
    {
        proof {
            assert(entries@.subrange(i as int, entries@.len() as int)[0] == entries@[i as int]);
        }
        if bytes_equal(&entries[i].service_name, name) {
            return Some(entries[i].measurement);
        }
        proof {
            assert(entries@.subrange(i as int, entries@.len() as int).drop_first()
                == entries@.subrange(i + 1, entries@.len() as int));
        }
        i = i + 1;
    }
    proof {
        assert(entries@.subrange(i as int, entries@.len() as int).len() == 0);
    }
    None
}

/// Byte-string equality.
pub fn bytes_equal(a: &Vec<u8>, b: &Vec<u8>) -> (r: bool)
    ensures
        r == (a@ == b@),
{
    if a.len() != b.len() {
        assert(a@ != b@);
        return false;
    }
    let mut i: usize = 0;
    while i < a.len()
        invariant
            i <= a@.len(),
            a@.len() == b@.len(),
            forall|j: int| 0 <= j < i ==> a@[j] == b@[j],
        decreases a@.len() - i,
    {
        if a[i] != b[i] {
            assert(a@ != b@);
            return false;
        }
        i = i + 1;
    }
    proof {
        assert(a@ =~= b@);
    }
    true
}

} // verus!
