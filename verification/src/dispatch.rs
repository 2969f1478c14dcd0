//! The entry-point dispatcher and service start-up.
//!
//! This is the only surface an untrusted caller can reach.  Dispatch walks
//! a fixed gauntlet: an unknown command identifier is rejected before any
//! handler runs; request bytes that do not decode to the command's input
//! are rejected before any handler runs; a command illegal in the current
//! lifecycle state is rejected without touching the state.  Only then is
//! the command's handler invoked, and only a successful handler moves the
//! lifecycle.  Start-up failures are reported as typed results that leave
//! the lifecycle at `Ready`, so a retry is possible; nothing here ever
//! terminates the process.

use vstd::prelude::*;
use crate::attest::{endorsed_cert, generate_and_endorse, ROOT_OF_TRUST_ID};
use crate::channel::{
    client_config, clone_bytes, server_config_without_verifier, ClientEndpoint, ServerTlsConfig,
};
use crate::codec::{decode_config, parse_config};
use crate::config::{
    audited_measurement, lemma_audited_measurement_model, model_attestation_valid,
    model_audited_measurement, ConfigModel, ServiceConfig,
};
use crate::error::ServiceError;
use crate::lifecycle::{
    command_is_legal, command_of_id, is_legal, spec_command_of_id, state_after, Command,
    LifecycleState,
};
use crate::policy::TrustPolicy;

verus! {

/// The channels a successfully started service runs with: the address its
/// own endpoint binds, its server-side TLS configuration, and the endpoint
/// of its one outbound dependency where the configuration names one.
pub struct RunningService {
    pub listen: Vec<u8>,
    pub server: ServerTlsConfig,
    pub dependency: Option<ClientEndpoint>,
}

/// The context of one service instance: its lifecycle and the measurement
/// the hardware reports for the running enclave.  Created once per
/// process; the lifecycle is the only mutable state in it.
pub struct ServiceContext {
    pub lifecycle: LifecycleState,
    pub self_measurement: u64,
}

/// A fresh, uninitialized service context for an enclave whose measured
/// identity is `self_measurement`.
pub fn new_context(self_measurement: u64) -> (r: ServiceContext)
    ensures
        r.lifecycle == LifecycleState::Uninitialized,
        r.self_measurement == self_measurement,
{
    ServiceContext { lifecycle: LifecycleState::Uninitialized, self_measurement }
}

/// What starting a service with configuration `c` reports: attestation is
/// attempted first and fails exactly on an unusable attestation
/// configuration; then, where a dependency is named, its measurement must
/// resolve from the audit list or the trust policy cannot be built.
pub open spec fn start_outcome(c: ConfigModel) -> Result<(), ServiceError> {
    if !model_attestation_valid(c) {
        Err(ServiceError::AttestationFailure)
    } else if c.dependency_name.len() > 0 && model_audited_measurement(
        c.audit,
        c.dependency_name,
    ) is None {
        Err(ServiceError::ChannelConfigError)
    } else {
        Ok(())
    }
}

/// Whether `request` decodes to the input type of `command`.
/// `InitEnclave` and `FinalizeEnclave` take no input, so their requests
/// must be empty; a `StartService` request must parse as a configuration.
pub open spec fn request_well_formed(command: Command, request: Seq<u8>) -> bool {
    match command {
        Command::InitEnclave => request.len() == 0,
        Command::FinalizeEnclave => request.len() == 0,
        Command::StartService => parse_config(request) is Some,
    }
}

/// What one dispatch step does: the lifecycle it leaves behind and the
/// reply it returns.
pub struct DispatchOutcome {
    pub lifecycle: LifecycleState,
    pub reply: Result<Seq<u8>, ServiceError>,
}

/// The dispatch algorithm over the mathematical model, in the order the
/// gauntlet runs: table lookup, decode, lifecycle check, handler.  Every
/// rejection leaves the lifecycle untouched, and so does a start-up
/// failure, so `StartService` can be retried from `Ready`.
pub open spec fn spec_dispatch(
    state: LifecycleState,
    command_id: u32,
    request: Seq<u8>,
) -> DispatchOutcome {
    match spec_command_of_id(command_id) {
        None => DispatchOutcome { lifecycle: state, reply: Err(ServiceError::UnknownCommand) },
        Some(command) => if !request_well_formed(command, request) {
            DispatchOutcome { lifecycle: state, reply: Err(ServiceError::MalformedRequest) }
        } else if !command_is_legal(state, command) {
            DispatchOutcome { lifecycle: state, reply: Err(ServiceError::IllegalTransition) }
        } else if command is StartService {
            match start_outcome(parse_config(request).unwrap()) {
                Err(e) => DispatchOutcome { lifecycle: state, reply: Err(e) },
                Ok(_) => DispatchOutcome {
                    lifecycle: state_after(state, command),
                    reply: Ok(Seq::empty()),
                },
            }
        } else {
            DispatchOutcome { lifecycle: state_after(state, command), reply: Ok(Seq::empty()) }
        },
    }
}

/// Runs the attestation endorser and builds the service's channels.
///
/// Reports `AttestationFailure` exactly on an unusable attestation
/// configuration, and `ChannelConfigError` exactly when a named dependency
/// has no audited measurement; on success the service binds the configured
/// listen address, the server presents a certificate endorsed for this
/// enclave's measurement, and the dependency
/// endpoint, where one is named, verifies its peer against exactly the
/// dependency's audited measurement under the build-time root of trust.
pub fn start_service(config: &ServiceConfig, self_measurement: u64) -> (r: Result<
    RunningService,
    ServiceError,
>)
    ensures
        r is Ok <==> start_outcome(config@) is Ok,
        r is Err ==> Err::<(), ServiceError>(r->Err_0) == start_outcome(config@),
        r is Ok ==> r->Ok_0.listen@ == config@.listen_address,
        r is Ok ==> r->Ok_0.server.cert == endorsed_cert(self_measurement)
            && r->Ok_0.server.private_key@.len() > 0,
        r is Ok ==> (config@.dependency_name.len() == 0 <==> r->Ok_0.dependency is None),
        r is Ok && config@.dependency_name.len() > 0 ==> {
            let endpoint = r->Ok_0.dependency->Some_0;
            endpoint.address@ == config@.dependency_address && endpoint.config.cert
                == endorsed_cert(self_measurement) && endpoint.config.policy.root_id
                == ROOT_OF_TRUST_ID && endpoint.config.policy.accepted_measurements@ == seq![
                model_audited_measurement(config@.audit, config@.dependency_name).unwrap(),
            ]
        },
{
    proof {
        lemma_audited_measurement_model(config.audit@, config.dependency_name@);
    }
    let identity = match generate_and_endorse(&config.attestation, self_measurement) {
        Err(e) => {
            return Err(e);
        },
        Ok(id) => id,
    };
    let server = match server_config_without_verifier(&identity) {
        Err(_) => {
            // unreachable: endorsement never yields an empty key
            return Err(ServiceError::ChannelConfigError);
        },
        Ok(s) => s,
    };
    let listen = clone_bytes(&config.listen_address);
    if config.dependency_name.len() == 0 {
        return Ok(RunningService { listen, server, dependency: None });
    }
    let dependency_measurement = match audited_measurement(&config.audit, &config.dependency_name)
        {
        None => {
            return Err(ServiceError::ChannelConfigError);
        },
        Some(m) => m,
    };
    let policy = TrustPolicy {
        accepted_measurements: vec![dependency_measurement],
        root_id: ROOT_OF_TRUST_ID,
    };
    let client = match client_config(&identity, policy) {
        Err(_) => {
            // unreachable: the key and the allow-list are non-empty
            return Err(ServiceError::ChannelConfigError);
        },
        Ok(c) => c,
    };
    let address = clone_bytes(&config.dependency_address);
    Ok(
        RunningService {
            listen,
            server,
            dependency: Some(ClientEndpoint { address, config: client }),
        },
    )
}

/// Dispatches one command from the untrusted caller.
///
/// The reply and the lifecycle afterwards are exactly `spec_dispatch` of
/// the state, identifier and request bytes; the enclave's measurement is
/// never touched.  In particular an unknown identifier, a malformed
/// request and an illegal transition are rejected with the lifecycle left
/// unchanged, before any handler runs.
pub fn dispatch(context: &mut ServiceContext, command_id: u32, request: &Vec<u8>) -> (r: Result<
    Vec<u8>,
    ServiceError,
>)
    ensures
        final(context).self_measurement == old(context).self_measurement,
        final(context).lifecycle == spec_dispatch(
            old(context).lifecycle,
            command_id,
            request@,
        ).lifecycle,
        (match r {
            Ok(reply) => spec_dispatch(old(context).lifecycle, command_id, request@).reply == Ok::<
                Seq<u8>,
                ServiceError,
            >(reply@),
            Err(e) => spec_dispatch(old(context).lifecycle, command_id, request@).reply == Err::<
                Seq<u8>,
                ServiceError,
            >(e),
        }),
{
    let command = match command_of_id(command_id) {
        None => {
            return Err(ServiceError::UnknownCommand);
        },
        Some(c) => c,
    };
    match command {
        Command::InitEnclave => {
            if request.len() != 0 {
                return Err(ServiceError::MalformedRequest);
            }
            if !is_legal(context.lifecycle, command) {
                return Err(ServiceError::IllegalTransition);
            }
            context.lifecycle = LifecycleState::Ready;
            Ok(Vec::new())
        },
        Command::FinalizeEnclave => {
            if request.len() != 0 {
                return Err(ServiceError::MalformedRequest);
            }
            if !is_legal(context.lifecycle, command) {
                return Err(ServiceError::IllegalTransition);
            }
            context.lifecycle = LifecycleState::Finalized;
            Ok(Vec::new())
        },
        Command::StartService => {
            let config = match decode_config(request) {
                None => {
                    return Err(ServiceError::MalformedRequest);
                },
                Some(c) => c,
            };
            if !is_legal(context.lifecycle, command) {
                return Err(ServiceError::IllegalTransition);
            }
            match start_service(&config, context.self_measurement) {
                Err(e) => Err(e),
                Ok(_) => {
                    context.lifecycle = LifecycleState::Running;
                    Ok(Vec::new())
                },
            }
        },
    }
}

/// Dispatching a command identifier outside the closed entry-point table
/// returns `UnknownCommand` and is a no-op: no handler runs and the
/// lifecycle is unchanged, whatever state the service is in and whatever
/// the request bytes hold.
pub proof fn lemma_unknown_command_is_noop(state: LifecycleState, command_id: u32, request: Seq<
    u8,
>)
    requires
        spec_command_of_id(command_id) is None,
    ensures
        spec_dispatch(state, command_id, request) == (DispatchOutcome {
            lifecycle: state,
            reply: Err::<Seq<u8>, ServiceError>(ServiceError::UnknownCommand),
        }),
{
}

/// A `StartService` request produced by the wire encoder is never
/// malformed: the dispatcher reads the encoded configuration back
/// unchanged.
pub proof fn lemma_encoded_request_well_formed(c: ConfigModel)
    requires
        crate::codec::encodable(c),
    ensures
        request_well_formed(Command::StartService, crate::codec::enc_config(c)),
        parse_config(crate::codec::enc_config(c)) == Some(c),
{
    crate::codec::lemma_config_round_trip(c);
}

/// Dispatching a well-formed `StartService` before `InitEnclave` returns
/// `IllegalTransition` and leaves the lifecycle at `Uninitialized`.
pub proof fn lemma_start_before_init_rejected(command_id: u32, request: Seq<u8>)
    requires
        spec_command_of_id(command_id) == Some(Command::StartService),
        parse_config(request) is Some,
    ensures
        spec_dispatch(LifecycleState::Uninitialized, command_id, request) == (DispatchOutcome {
            lifecycle: LifecycleState::Uninitialized,
            reply: Err::<Seq<u8>, ServiceError>(ServiceError::IllegalTransition),
        }),
{
}

} // verus!
