//! The secure channel factory and the RPC endpoint around it.
//!
//! From an attested identity the factory builds a server-side TLS
//! configuration that authenticates itself to clients but, by design, does
//! not demand a client certificate: a service facing many untrusted end
//! users cannot require attestation from them, and client authentication
//! where needed travels inside the RPC payload.  From an identity plus a
//! trust policy it builds a client-side configuration that does verify the
//! remote peer's certificate before the handshake completes: a client talks
//! to one specific, known dependency and must attest it.

use vstd::prelude::*;
use crate::attest::{AttestedIdentity, EndorsedCert};
use crate::error::ServiceError;
use crate::policy::{policy_accepts, TrustPolicy, VerifyOutcome};

verus! {

/// A server-side TLS configuration: presents the attested identity,
/// verifies no client certificate.
#[derive(Debug)]
pub struct ServerTlsConfig {
    pub cert: EndorsedCert,
    pub private_key: Vec<u8>,
}

/// A client-side TLS configuration: presents the attested identity and
/// verifies the remote peer against the embedded trust policy.
#[derive(Debug)]
pub struct ClientTlsConfig {
    pub cert: EndorsedCert,
    pub private_key: Vec<u8>,
    pub policy: TrustPolicy,
}

/// A remote dependency endpoint: the advertised address to dial and the
/// client TLS configuration to dial it with.
#[derive(Debug)]
pub struct ClientEndpoint {
    pub address: Vec<u8>,
    pub config: ClientTlsConfig,
}

/// Builds the server-side TLS configuration from an attested identity,
/// without a client-certificate verifier.
///
/// Fails with `ChannelConfigError` exactly on a malformed identity: one
/// whose private key is empty and so cannot complete a handshake.
pub fn server_config_without_verifier(identity: &AttestedIdentity) -> (r: Result<
    ServerTlsConfig,
    ServiceError,
>)
    ensures
        identity.private_key@.len() > 0 <==> r is Ok,
        r is Err ==> r->Err_0 == ServiceError::ChannelConfigError,
        r is Ok ==> r->Ok_0.cert == identity.cert && r->Ok_0.private_key@
            == identity.private_key@,
{
    if identity.private_key.len() == 0 {
        return Err(ServiceError::ChannelConfigError);
    }
    Ok(
        ServerTlsConfig {
            cert: identity.cert,
            private_key: clone_bytes(&identity.private_key),
        },
    )
}

/// Builds the client-side TLS configuration from an attested identity and
/// the trust policy for the dependency being dialled.
///
/// Fails with `ChannelConfigError` exactly on a malformed input: an empty
/// private key, or a policy whose allow-list is empty — such a policy
/// could never accept the peer, so constructing the channel is refused
/// outright rather than left to fail on every handshake.
pub fn client_config(identity: &AttestedIdentity, policy: TrustPolicy) -> (r: Result<
    ClientTlsConfig,
    ServiceError,
>)
    ensures
        identity.private_key@.len() > 0 && policy.accepted_measurements@.len() > 0 <==> r is Ok,
        r is Err ==> r->Err_0 == ServiceError::ChannelConfigError,
        r is Ok ==> r->Ok_0.cert == identity.cert && r->Ok_0.private_key@
            == identity.private_key@ && r->Ok_0.policy == policy,
{
    if identity.private_key.len() == 0 || policy.accepted_measurements.len() == 0 {
        return Err(ServiceError::ChannelConfigError);
    }
    Ok(
        ClientTlsConfig {
            cert: identity.cert,
            private_key: clone_bytes(&identity.private_key),
            policy,
        },
    )
}

impl ServerTlsConfig {
    /// The certificate this server presents during every handshake.
    pub fn presented_cert(&self) -> (r: EndorsedCert)
        ensures
            r == self.cert,
    {
        self.cert
    }
}

impl ClientTlsConfig {
    /// Completes a client-side handshake against the certificate the
    /// server presented.
    ///
    /// Succeeds exactly when the trust policy accepts the peer; a rejected
    /// peer fails the handshake with `ConnectionError`, which is scoped to
    /// this one connection.
    pub fn handshake(&self, peer_cert: &EndorsedCert) -> (r: Result<(), ServiceError>)
        ensures
            r is Ok <==> policy_accepts(
                *peer_cert,
                self.policy.accepted_measurements@,
                self.policy.root_id,
            ),
            r is Err ==> r->Err_0 == ServiceError::ConnectionError,
    {
        match self.policy.verify(peer_cert) {
            VerifyOutcome::Accept => Ok(()),
            VerifyOutcome::Reject(_) => Err(ServiceError::ConnectionError),
        }
    }
}

/// The opaque request/response handler a business service supplies to the
/// endpoint.  Its logic is outside this trust layer: `spec_handle` is the
/// handler's own statement of what it answers, and the endpoint promises
/// to return exactly that for every request.
pub trait RequestHandler {
    /// What this handler answers to a given request.
    spec fn spec_handle(&self, request: Seq<u8>) -> Seq<u8>;

    /// Computes the response to one request.
    fn handle(&self, request: &Vec<u8>) -> (r: Vec<u8>)
        ensures
            r@ == self.spec_handle(request@),
    ;
}

/// Serves one accepted connection: reads each request in order, passes it
/// to the handler, and writes the handler's response back, until the peer
/// has no more requests.
///
/// Every request is answered with exactly the handler's response, in
/// order; a failure on one connection never affects another, and the
/// accept loop around this call continues regardless of how the
/// connection ended.
pub fn serve_connection<H: RequestHandler>(handler: &H, requests: &Vec<Vec<u8>>) -> (responses:
    Vec<Vec<u8>>)
    ensures
        responses@.len() == requests@.len(),
        forall|k: int|
            0 <= k < requests@.len() ==> #[trigger] responses@[k]@ == handler.spec_handle(
                requests@[k]@,
            ),
{
    let mut responses: Vec<Vec<u8>> = Vec::new();
    let mut i: usize = 0;
    while i < requests.len()
        invariant
            i <= requests@.len(),
            responses@.len() == i,
            forall|j: int|
                0 <= j < i ==> #[trigger] responses@[j]@ == handler.spec_handle(requests@[j]@),
        decreases requests@.len() - i,
    {
        responses.push(handler.handle(&requests[i]));
        i = i + 1;
    }
    responses
}

/// A byte-for-byte copy of a byte string.
pub(crate) fn clone_bytes(bytes: &Vec<u8>) -> (r: Vec<u8>)
    ensures
        r@ == bytes@,
{
    let mut out: Vec<u8> = Vec::new();
    let mut i: usize = 0;
    while i < bytes.len()
        invariant
            i <= bytes@.len(),
            out@ == bytes@.subrange(0, i as int),
        decreases bytes@.len() - i,
    {
        out.push(bytes[i]);
        i = i + 1;
    }
    assert(out@ == bytes@.subrange(0, bytes@.len() as int));
    assert(bytes@.subrange(0, bytes@.len() as int) == bytes@);
    out
}

} // verus!
