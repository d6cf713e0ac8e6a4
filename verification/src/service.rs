//! The decisions of the Windows service on the requests of the service control
//! manager. Registering, dispatching and reporting status are the program's part.

use vstd::prelude::*;

verus! {

/// A request of the service control manager, as far as the service tells them apart.
#[derive(Clone, Copy, Debug, PartialEq, Eq, Structural)]
pub enum ControlRequest {
    /// Stop the service.
    Stop,
    /// The system is shutting down.
    Shutdown,
    /// Report the current status.
    Interrogate,
    /// Any other request.
    Other,
}

/// The service's answer to a request.
#[derive(Clone, Copy, Debug, PartialEq, Eq, Structural)]
pub enum ControlReply {
    /// The request was handled.
    NoError,
    /// The service does not handle such requests.
    NotImplemented,
}

/// How the service answers `request`, and whether the capture must stop:
/// a stop or a shutdown stops it; a stop, a shutdown or an interrogation is
/// answered `NoError`, anything else `NotImplemented`.
pub fn control_reply(request: ControlRequest) -> (r: (bool, ControlReply))
    ensures
        r.0 == (request == ControlRequest::Stop || request == ControlRequest::Shutdown),
        r.1 == (if request == ControlRequest::Other {
            ControlReply::NotImplemented
        } else {
            ControlReply::NoError
        }),
{
    match request {
        ControlRequest::Stop | ControlRequest::Shutdown => (true, ControlReply::NoError),
        ControlRequest::Interrogate => (false, ControlReply::NoError),
        ControlRequest::Other => (false, ControlReply::NotImplemented),
    }
}

} // verus!
