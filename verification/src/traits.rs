//! The traits that connect user-written service code to the RPC core.
//!
//! The code that implements a concrete service trait lives outside this
//! crate; the dispatcher reaches it only through
//! [`RustyRpcServiceServer::parse_and_call_method_locally`], whose result it
//! trusts for nothing: the dispatcher's contracts hold for every value an
//! implementation may return.

use crate::errors::RpcError;
use crate::messages::{MethodArgs, MethodId, ServiceId};
use vstd::prelude::*;

verus! {

/// What one method invocation on a server object produced.
pub enum HandlerOutcome<S> {
    /// The encoded return value of a data-returning method. The entry's
    /// lock is released before the reply is sent.
    Data(Vec<u8>),
    /// The fresh server object of a service-returning method. The
    /// dispatcher registers it as a child of the called service, which
    /// stays locked until the child is dropped.
    Service(S),
}

/// Implemented by every server-side service object the dispatcher can
/// invoke.
///
/// An implementation decodes the argument bytes, runs the method that
/// `method_id` names, and reports either an encoded return value or a new
/// child service. An `Err` is a user failure and terminates the connection.
pub trait RustyRpcServiceServer: Sized {
    fn parse_and_call_method_locally(
        &mut self,
        method_id: MethodId,
        method_args: MethodArgs,
    ) -> Result<HandlerOutcome<Self>, RpcError>;
}

/// Implemented by the client-side view of a service type; names the proxy
/// type that stands in for the service on the client.
pub trait RustyRpcServiceClient {
    type ServiceProxy;
}

/// Implemented by every client-side proxy type: a proxy is built from the
/// capability the server returned.
pub trait RustyRpcServiceProxy<T: RustyRpcServiceClient + ?Sized>: Sized {
    fn from_service_id(service_id: ServiceId) -> Self;
}

/// Marker for the data types that method arguments and return values may
/// use.
pub trait RustyRpcStruct {

}

/// `i32` is treated like a record type by this library.
impl RustyRpcStruct for i32 {

}

} // verus!
