//! The client-side proxy state machine.
//!
//! A [`ClientProxy`] owns one capability: the service id the server handed
//! out (or id 0 for the initial service) and a `closed` flag. The proxy
//! builds the messages the client must send and interprets the replies; the
//! byte I/O around it lives outside the crate. The connection allows one
//! outstanding call at a time, so the shell drives the proxy strictly
//! send-then-receive.
//!
//! A proxy must be closed exactly once before it is destroyed. Closing it a
//! second time fails with [`RpcError::DoubleClose`] and produces no message,
//! so nothing goes on the wire. Destruction without a close is detected by
//! the unverified shell that wraps the proxy, since destructors cannot
//! carry contracts here.

use crate::errors::RpcError;
use crate::messages::{
    ClientMessage, MethodArgs, MethodId, ReturnValue, ServerMessage, ServiceId, SpecClientMessage,
    SpecServerMessage,
};
use crate::traits::{RustyRpcServiceClient, RustyRpcServiceProxy};
use vstd::prelude::*;

verus! {

/// The client-side handle that owns one capability of the connection.
#[derive(Debug, Clone, PartialEq, Eq, Structural)]
pub struct ClientProxy {
    /// The capability this proxy owns.
    pub service_id: ServiceId,
    /// Whether `close` already ran on this proxy.
    pub is_closed: bool,
}

/// What closing a proxy does: the first close marks the proxy closed and
/// yields the `DropService` message to send; any later close fails with
/// `DoubleClose` and yields nothing to send.
pub open spec fn spec_close(p: ClientProxy) -> (ClientProxy, Result<ClientMessage, RpcError>) {
    if p.is_closed {
        (p, Err(RpcError::DoubleClose))
    } else {
        (
            ClientProxy { service_id: p.service_id, is_closed: true },
            Ok(ClientMessage::DropService(p.service_id)),
        )
    }
}

/// DoubleClose law: after a successful close, a second close fails with
/// `DoubleClose`, leaves the proxy as it was, and produces no wire
/// traffic, since it yields no message.
pub proof fn lemma_double_close(p: ClientProxy)
    requires
        !p.is_closed,
    ensures
        ({
            let (p1, r1) = spec_close(p);
            let (p2, r2) = spec_close(p1);
            &&& r1 == Ok::<ClientMessage, RpcError>(ClientMessage::DropService(p.service_id))
            &&& r2 == Err::<ClientMessage, RpcError>(RpcError::DoubleClose)
            &&& p2 == p1
        }),
{
}

impl ClientProxy {
    /// A fresh proxy bound to a capability the server returned.
    pub fn from_service_id(service_id: ServiceId) -> (r: Self)
        ensures
            r.service_id == service_id,
            !r.is_closed,
    {
        ClientProxy { service_id, is_closed: false }
    }

    /// The proxy a connecting client synthesizes without any exchange: it
    /// is bound to the reserved initial-service id 0.
    pub fn initial() -> (r: Self)
        ensures
            r.service_id.0 == 0,
            !r.is_closed,
    {
        ClientProxy { service_id: ServiceId(0), is_closed: false }
    }

    /// The message that calls a method on this proxy's service with the
    /// given serialized argument tuple.
    pub fn call_message(&self, method_id: MethodId, args: MethodArgs) -> (r: ClientMessage)
        ensures
            r@ == SpecClientMessage::CallMethod(self.service_id.0, method_id.0, args@),
    {
        ClientMessage::CallMethod(self.service_id, method_id, args)
    }

    /// Close the proxy: flip the `closed` flag and yield the `DropService`
    /// message the client must send, whose reply goes to
    /// [`ClientProxy::handle_close_reply`]. A second close fails with
    /// `DoubleClose` and yields no message.
    pub fn close_request(&mut self) -> (r: Result<ClientMessage, RpcError>)
        ensures
            (*final(self), r) == spec_close(*old(self)),
    {
        if self.is_closed {
            Err(RpcError::DoubleClose)
        } else {
            self.is_closed = true;
            Ok(ClientMessage::DropService(self.service_id))
        }
    }

    /// Interpret the reply to a `DropService` message: anything but
    /// `DropServiceDone` is a protocol violation, which the shell that owns
    /// the connection treats as fatal.
    pub fn handle_close_reply(reply: ServerMessage) -> (r: Result<(), RpcError>)
        ensures
            r is Ok <==> reply@ == SpecServerMessage::DropServiceDone,
            r is Err ==> r == Err::<(), RpcError>(RpcError::ProtocolViolation),
    {
        match reply {
            ServerMessage::DropServiceDone => Ok(()),
            ServerMessage::MethodReturned(_) => Err(RpcError::ProtocolViolation),
        }
    }

    /// Interpret the reply to a `CallMethod` message: it must be
    /// `MethodReturned`, carrying either the data payload to decode or the
    /// id for a child proxy; `DropServiceDone` here is a protocol
    /// violation, which the shell treats as fatal.
    pub fn handle_call_reply(&self, reply: ServerMessage) -> (r: Result<ReturnValue, RpcError>)
        ensures
            match reply {
                ServerMessage::MethodReturned(rv) => r == Ok::<ReturnValue, RpcError>(rv),
                ServerMessage::DropServiceDone => r == Err::<ReturnValue, RpcError>(
                    RpcError::ProtocolViolation,
                ),
            },
    {
        match reply {
            ServerMessage::MethodReturned(rv) => Ok(rv),
            ServerMessage::DropServiceDone => Err(RpcError::ProtocolViolation),
        }
    }
}

/// Every client-side service view is fronted by this one proxy shape.
impl<T: RustyRpcServiceClient + ?Sized> RustyRpcServiceProxy<T> for ClientProxy {
    fn from_service_id(service_id: ServiceId) -> (r: Self)
        ensures
            r.service_id == service_id,
            !r.is_closed,
    {
        ClientProxy::from_service_id(service_id)
    }
}

} // verus!
