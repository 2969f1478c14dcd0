//! Channel-trust and entry-point safety for attested enclave services.
//!
//! An enclave service exposes a tiny, fixed set of privileged entry points to
//! an untrusted caller and establishes mutually attested TLS channels to its
//! peers before any traffic flows.  This crate holds the verified core of that
//! layer: the closed command dispatcher and its lifecycle state machine, the
//! attestation endorsement model, the fail-closed trust-policy verifier, the
//! secure-channel factory, and the wire codec for the one structured entry
//! point input.

use vstd::prelude::*;

pub mod attest;
pub mod channel;
pub mod codec;
pub mod config;
pub mod dispatch;
pub mod error;
pub mod lifecycle;
pub mod policy;

verus! {

use crate::error::ServiceError;
use crate::lifecycle::LifecycleState;

/// Runs the built-in smoke checks of the entry-point dispatcher and
/// reports whether they all passed.  They always do: each check's outcome
/// is pinned by the dispatcher's contract, so the result is proved `true`.
pub fn run_tests() -> (ok: bool)
    ensures
        ok,
{
    let mut context = dispatch::new_context(7);
    let empty: Vec<u8> = Vec::new();
    let first = dispatch::dispatch(&mut context, 0, &empty);
    let mut ok = first.is_ok() && matches!(context.lifecycle, LifecycleState::Ready);
    let second = dispatch::dispatch(&mut context, 99, &empty);
    ok = ok && matches!(second, Err(ServiceError::UnknownCommand)) && matches!(
        context.lifecycle,
        LifecycleState::Ready
    );
    ok
}

} // verus!
