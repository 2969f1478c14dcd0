//! The trust-policy verifier: a fail-closed predicate over endorsed peer
//! certificates.
//!
//! A policy carries the set of acceptable enclave measurements and the root
//! of trust the peer's endorsement must chain to.  Verification accepts a
//! peer exactly when its certificate chains to that root, its quote status
//! is current, and its measurement is in the allow-list; any single failure
//! rejects, and an empty allow-list rejects every peer.  There is no
//! partial-trust or warn-and-continue path.

use vstd::prelude::*;
use crate::attest::{endorsed_cert, EndorsedCert, ROOT_OF_TRUST_ID};

verus! {

/// Why a peer certificate was rejected.
#[derive(Clone, Copy, Debug, PartialEq, Eq, Structural)]
pub enum RejectReason {
    /// The endorsement signature does not chain to the configured root.
    UntrustedRoot,
    /// The embedded quote status is stale or revoked.
    StaleQuote,
    /// The extracted measurement is outside the policy's allow-list.
    MeasurementNotAllowed,
}

/// The verdict of the trust-policy verifier on one peer certificate.
#[derive(Clone, Copy, Debug, PartialEq, Eq, Structural)]
pub enum VerifyOutcome {
    Accept,
    Reject(RejectReason),
}

/// An allow-list of acceptable enclave measurements plus the root of trust
/// every peer endorsement must chain to.  Built per outbound dependency.
#[derive(Debug)]
pub struct TrustPolicy {
    pub accepted_measurements: Vec<u64>,
    pub root_id: u64,
}

/// When a trust policy accepts a peer certificate: the endorsement chains
/// to the policy's root, the quote status is current, and the measurement
/// is in the allow-list.  An empty allow-list therefore accepts nothing.
pub open spec fn policy_accepts(cert: EndorsedCert, accepted: Seq<u64>, root_id: u64) -> bool {
    cert.chained_root == root_id && cert.quote_fresh && accepted.contains(cert.measurement)
}

impl TrustPolicy {
    /// Verifies a peer's endorsed certificate against this policy.
    ///
    /// The checks run in order — endorsement chain, quote freshness, then
    /// allow-list membership — and the first failure rejects with its
    /// reason; only a certificate passing all three is accepted.
    pub fn verify(&self, cert: &EndorsedCert) -> (r: VerifyOutcome)
        ensures
            r == VerifyOutcome::Accept <==> policy_accepts(
                *cert,
                self.accepted_measurements@,
                self.root_id,
            ),
            cert.chained_root != self.root_id ==> r == VerifyOutcome::Reject(
                RejectReason::UntrustedRoot,
            ),
            cert.chained_root == self.root_id && !cert.quote_fresh ==> r
                == VerifyOutcome::Reject(RejectReason::StaleQuote),
            cert.chained_root == self.root_id && cert.quote_fresh
                && !self.accepted_measurements@.contains(cert.measurement) ==> r
                == VerifyOutcome::Reject(RejectReason::MeasurementNotAllowed),
    {
        if cert.chained_root != self.root_id {
            VerifyOutcome::Reject(RejectReason::UntrustedRoot)
        } else if !cert.quote_fresh {
            VerifyOutcome::Reject(RejectReason::StaleQuote)
        } else if !contains_measurement(&self.accepted_measurements, cert.measurement) {
            VerifyOutcome::Reject(RejectReason::MeasurementNotAllowed)
        } else {
            VerifyOutcome::Accept
        }
    }
}

/// Whether `measurement` is in the allow-list.
fn contains_measurement(accepted: &Vec<u64>, measurement: u64) -> (r: bool)
    ensures
        r == accepted@.contains(measurement),
{
    let mut i: usize = 0;
    while i < accepted.len()
        invariant
            i <= accepted@.len(),
            forall|j: int| 0 <= j < i ==> accepted@[j] != measurement,
        decreases accepted@.len() - i,
    {
        if accepted[i] == measurement {
            assert(accepted@.contains(measurement));
            return true;
        }
        i = i + 1;
    }
    assert(!accepted@.contains(measurement));
    false
}

/// An identity minted by endorsement for measurement `m` is accepted by
/// every trust policy that chains to the build-time root of trust and
/// allows `m`.
pub proof fn lemma_endorsed_identity_accepted(m: u64, accepted: Seq<u64>)
    requires
        accepted.contains(m),
    ensures
        policy_accepts(endorsed_cert(m), accepted, ROOT_OF_TRUST_ID),
{
}

/// A policy whose allow-list excludes a peer's actual measurement rejects
/// that peer, regardless of a valid endorsement chain or quote status.
pub proof fn lemma_excluded_measurement_rejected(
    cert: EndorsedCert,
    accepted: Seq<u64>,
    root_id: u64,
)
    requires
        !accepted.contains(cert.measurement),
    ensures
        !policy_accepts(cert, accepted, root_id),
{
}

/// An empty allow-list rejects every peer certificate: the verifier fails
/// closed, never open.
pub proof fn lemma_empty_allow_list_rejects(cert: EndorsedCert, accepted: Seq<u64>, root_id: u64)
    requires
        accepted.len() == 0,
    ensures
        !policy_accepts(cert, accepted, root_id),
{
}

} // verus!
