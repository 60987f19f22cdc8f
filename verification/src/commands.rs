//! The operations offered to the user interface. Each answers with a message
//! for the user, as a success or as an error.

use vstd::prelude::*;
use crate::handle::ProcessHandle;
use crate::manager::BackendManager;
use crate::protocol::{HealthStatus, Launch, StartError};

verus! {

/// The event announced when the launch is complete.
pub open spec fn ready_event_view() -> Seq<char> {
    "backend-ready"@
}

/// The name of the event announced when the launch is complete: what the
/// action `Notify` asks to be sent, with an empty payload.
pub fn ready_event() -> (name: &'static str)
    ensures
        name@ == ready_event_view(),
{
    "backend-ready"
}

/// What the user is told when a start is accepted.
pub open spec fn starting_message() -> Seq<char> {
    "Backend services starting..."@
}

/// What the user is told after a stop.
pub open spec fn stopped_message() -> Seq<char> {
    "Backend services stopped"@
}

/// Starts the backend for the user interface.
///
/// The start is that of [`BackendManager::start_services`]. If it is accepted
/// the answer holds the launch, which the host runs in the background, and
/// the message that the services are starting; if it is refused the error
/// is the refusal in words, and nothing has changed.
pub fn start_backend_services(manager: &mut BackendManager) -> (result: Result<
    (Launch, String),
    String,
>)
    requires
        old(manager).wf(),
        old(manager)@.is_active() || old(manager)@.launches < u64::MAX,
    ensures
        final(manager).wf(),
        result is Err <==> old(manager)@.is_active(),
        match result {
            Ok((launch, message)) => {
                &&& final(manager)@ == old(manager)@.start()
                &&& launch.ticket == old(manager)@.launches + 1
                &&& launch.first == old(manager)@.first_action()
                &&& message@ == starting_message()
            },
            Err(message) => {
                &&& final(manager)@ == old(manager)@
                &&& message@ == StartError::AlreadyRunning.message_view()
            },
        },
{
    match manager.start_services() {
        Ok(launch) => Ok((launch, "Backend services starting...".to_owned())),
        Err(error) => Err(error.message()),
    }
}

/// Stops the backend for the user interface. Never refused.
///
/// The stop is that of [`BackendManager::stop_services`]: the answer holds
/// the handles of the processes that the host now terminates, and the
/// message that the services are stopped.
pub fn stop_backend_services(manager: &mut BackendManager) -> (result: (
    Vec<ProcessHandle>,
    String,
))
    requires
        old(manager).wf(),
    ensures
        final(manager).wf(),
        final(manager)@ == old(manager)@.stop(),
        result.0@ == old(manager)@.table,
        result.1@ == stopped_message(),
{
    let handles = manager.stop_services();
    (handles, "Backend services stopped".to_owned())
}

/// Reports the health of the backend for the user interface: the status in
/// words, as a success while the backend is running or starting, as an error
/// when it is degraded or stopped.
pub fn check_service_health(manager: &BackendManager) -> (result: Result<String, String>)
    ensures
        result is Ok <==> manager@.health().is_well(),
        match result {
            Ok(message) => message@ == manager@.health().message_view(),
            Err(message) => message@ == manager@.health().message_view(),
        },
{
    let status = manager.check_health();
    match status {
        HealthStatus::Running => Ok(status.message()),
        HealthStatus::Starting => Ok(status.message()),
        HealthStatus::Degraded => Err(status.message()),
        HealthStatus::Stopped => Err(status.message()),
    }
}

} // verus!
