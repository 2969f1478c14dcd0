//! The service lifecycle state machine and the closed command enumeration.
//!
//! A service process moves through `Uninitialized -> Ready -> Running ->
//! Finalized`.  Every state says which commands are legal in it; an illegal
//! combination is rejected by the dispatcher, never silently ignored, and no
//! transition leaves `Finalized`.

use vstd::prelude::*;

verus! {

/// The closed set of commands an untrusted caller may issue.
#[derive(Clone, Copy, Debug, PartialEq, Eq, Structural)]
pub enum Command {
    /// Process-wide setup; moves the service from `Uninitialized` to `Ready`.
    InitEnclave,
    /// Attest, build channels and run the endpoint; `Ready` to `Running`.
    StartService,
    /// Release process-wide resources; `Ready` or `Running` to `Finalized`.
    FinalizeEnclave,
}

/// The process-wide lifecycle of one service instance.
#[derive(Clone, Copy, Debug, PartialEq, Eq, Structural)]
pub enum LifecycleState {
    Uninitialized,
    Ready,
    Running,
    Finalized,
}

/// Which commands each lifecycle state admits.  The relation is total:
/// every state/command pair is either legal here or rejected with
/// `IllegalTransition` by the dispatcher.
pub open spec fn command_is_legal(state: LifecycleState, command: Command) -> bool {
    match command {
        Command::InitEnclave => state is Uninitialized,
        Command::StartService => state is Ready,
        Command::FinalizeEnclave => state is Ready || state is Running,
    }
}

/// The state a legal command leaves the service in.
pub open spec fn state_after(state: LifecycleState, command: Command) -> LifecycleState
    recommends
        command_is_legal(state, command),
{
    match command {
        Command::InitEnclave => LifecycleState::Ready,
        Command::StartService => LifecycleState::Running,
        Command::FinalizeEnclave => LifecycleState::Finalized,
    }
}

/// No transition leaves `Finalized`: once a service is finalized, every
/// command is illegal.
pub proof fn lemma_finalized_is_terminal(command: Command)
    ensures
        !command_is_legal(LifecycleState::Finalized, command),
{
}

/// The wire identifier of each command in the entry-point table.
pub open spec fn spec_command_of_id(id: u32) -> Option<Command> {
    if id == 0 {
        Some(Command::InitEnclave)
    } else if id == 1 {
        Some(Command::StartService)
    } else if id == 2 {
        Some(Command::FinalizeEnclave)
    } else {
        None
    }
}

/// Looks a raw command identifier up in the closed entry-point table.
pub fn command_of_id(id: u32) -> (r: Option<Command>)
    ensures
        r == spec_command_of_id(id),
{
    if id == 0 {
        Some(Command::InitEnclave)
    } else if id == 1 {
        Some(Command::StartService)
    } else if id == 2 {
        Some(Command::FinalizeEnclave)
    } else {
        None
    }
}

/// Runtime form of `command_is_legal`.
pub fn is_legal(state: LifecycleState, command: Command) -> (r: bool)
    ensures
        r == command_is_legal(state, command),
{
    match command {
        Command::InitEnclave => matches!(state, LifecycleState::Uninitialized),
        Command::StartService => matches!(state, LifecycleState::Ready),
        Command::FinalizeEnclave => matches!(
            state,
            LifecycleState::Ready | LifecycleState::Running
        ),
    }
}

} // verus!
