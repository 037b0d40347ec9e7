//! The failure modes of the RPC core.
//!
//! The connection is the unit of recovery: every variant except
//! [`RpcError::DoubleClose`] is fatal to the connection that raised it.

use crate::messages::ServiceId;
use vstd::prelude::*;

verus! {

/// Why an operation of the RPC core failed.
#[derive(Debug, Copy, Clone, PartialEq, Eq, Structural)]
pub enum RpcError {
    /// A byte sequence was not a valid encoding of the expected message or
    /// value shape.
    Malformed,
    /// A client message named a service id with no live entry in the
    /// registry.
    UnknownService(ServiceId),
    /// A call targeted a service whose entry is locked, i.e. a descendant of
    /// it is still alive.
    ServiceBusy(ServiceId),
    /// A drop targeted a service whose entry is locked: a descendant of
    /// it is still alive, so releasing it now would strand the child.
    ServiceStillInUse(ServiceId),
    /// The peer answered with the wrong reply tag; the caller that drives
    /// the proxy treats this as fatal.
    ProtocolViolation,
    /// `close` was invoked on a proxy that was already closed.
    DoubleClose,
    /// A user-supplied method handler reported a failure.
    UserFailure,
}

impl RpcError {
    /// A short human-readable description of the error.
    pub fn message(&self) -> &'static str {
        match self {
            RpcError::Malformed => "malformed message",
            RpcError::UnknownService(_) => "invalid service id",
            RpcError::ServiceBusy(_) => "service is busy: a descendant of it is still alive",
            RpcError::ServiceStillInUse(_) => "service dropped while still in use",
            RpcError::ProtocolViolation => "peer sent a reply of the wrong kind",
            RpcError::DoubleClose => "service proxy closed twice",
            RpcError::UserFailure => "service method implementation failed",
        }
    }
}

} // verus!
