//! The messages exchanged between client and server, and their ghost models.
//!
//! `ClientMessage` and `ServerMessage` are the two wire-level tagged unions.
//! Each carries plain values only, so a message can be encoded and decoded by
//! the codec in `wire` without any help from the transport. The ghost mirror
//! types (`SpecClientMessage` and friends) are the mathematical models the
//! contracts speak about; `View` maps each executable message onto its model.

use vstd::prelude::*;

verus! {

/// A connection-local capability: an unforgeable integer naming one live
/// server object. Id 0 is reserved for the initial service of a connection.
#[derive(Debug, Copy, Clone, PartialEq, Eq, Hash, Structural)]
pub struct ServiceId(pub u64);

impl ServiceId {
    /// Step to the next id, wrapping at the top of the 64-bit range.
    pub fn increment(&mut self)
        ensures
            final(self).0 == (if old(self).0 == u64::MAX {
                0u64
            } else {
                (old(self).0 + 1) as u64
            }),
    {
        self.0 = self.0.wrapping_add(1);
    }
}

/// Identifies one method of a service type: the position of the method in
/// the service's declaration, counted from 0. Meaningful only together with
/// a `ServiceId`.
#[derive(Debug, Copy, Clone, PartialEq, Eq, Structural)]
pub struct MethodId(pub u64);

/// The serialized positional argument tuple of a method call, as written on
/// the wire.
#[derive(Debug, Clone, PartialEq, Eq)]
pub struct MethodArgs(pub Vec<u8>);

impl View for MethodArgs {
    type V = Seq<u8>;

    open spec fn view(&self) -> Seq<u8> {
        self.0@
    }
}

/// The return value of an RPC call as written on the wire: either a data
/// payload, or the id of a freshly registered child service.
#[derive(Debug, Clone, PartialEq, Eq)]
pub enum ReturnValue {
    Data(Vec<u8>),
    Service(ServiceId),
}

/// Ghost model of [`ReturnValue`].
pub enum SpecReturnValue {
    Data(Seq<u8>),
    Service(u64),
}

impl View for ReturnValue {
    type V = SpecReturnValue;

    open spec fn view(&self) -> SpecReturnValue {
        match self {
            ReturnValue::Data(bytes) => SpecReturnValue::Data(bytes@),
            ReturnValue::Service(sid) => SpecReturnValue::Service(sid.0),
        }
    }
}

/// A message from the server to the client: either the confirmation that a
/// service was dropped, or the result of a method call.
#[derive(Debug, Clone, PartialEq, Eq)]
pub enum ServerMessage {
    DropServiceDone,
    MethodReturned(ReturnValue),
}

/// Ghost model of [`ServerMessage`].
pub enum SpecServerMessage {
    DropServiceDone,
    MethodReturned(SpecReturnValue),
}

impl View for ServerMessage {
    type V = SpecServerMessage;

    open spec fn view(&self) -> SpecServerMessage {
        match self {
            ServerMessage::DropServiceDone => SpecServerMessage::DropServiceDone,
            ServerMessage::MethodReturned(rv) => SpecServerMessage::MethodReturned(rv@),
        }
    }
}

/// A message from the client to the server: release a capability, or call a
/// method on one.
#[derive(Debug, Clone, PartialEq, Eq)]
pub enum ClientMessage {
    DropService(ServiceId),
    CallMethod(ServiceId, MethodId, MethodArgs),
}

/// Ghost model of [`ClientMessage`].
pub enum SpecClientMessage {
    DropService(u64),
    CallMethod(u64, u64, Seq<u8>),
}

impl View for ClientMessage {
    type V = SpecClientMessage;

    open spec fn view(&self) -> SpecClientMessage {
        match self {
            ClientMessage::DropService(sid) => SpecClientMessage::DropService(sid.0),
            ClientMessage::CallMethod(sid, mid, args) => SpecClientMessage::CallMethod(
                sid.0,
                mid.0,
                args@,
            ),
        }
    }
}

} // verus!
