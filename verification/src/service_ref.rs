//! A handle to a service: remote on the client, owned on the server.
//!
//! A service-returning method hands back a [`ServiceRefMut`]. On the server
//! it wraps the freshly created service object that the dispatcher will
//! register; on the client it wraps the [`ClientProxy`] bound to the
//! returned capability. The two sides never mix: a server-side value cannot
//! be dereferenced as a proxy, and a client-side value holds no local
//! service.

use crate::client_proxy::{spec_close, ClientProxy};
use crate::errors::RpcError;
use crate::messages::ClientMessage;
use vstd::prelude::*;

verus! {

/// Kept private so the two sides can only be told apart through the
/// methods below.
enum InnerServiceRefMut<S> {
    RemoteServiceRefMut(ClientProxy),
    OwnedLocalService(S),
}

/// Either an owned server-side service object, or the client's reference
/// to such a service.
pub struct ServiceRefMut<S>(InnerServiceRefMut<S>);

impl<S> ServiceRefMut<S> {
    /// Whether this is the client-side form, wrapping a proxy.
    pub closed spec fn spec_is_remote(&self) -> bool {
        self.0 is RemoteServiceRefMut
    }

    /// The wrapped proxy of a client-side value.
    pub closed spec fn spec_proxy(&self) -> ClientProxy
        recommends
            self.spec_is_remote(),
    {
        self.0->RemoteServiceRefMut_0
    }

    /// The wrapped service object of a server-side value.
    pub closed spec fn spec_local(&self) -> S
        recommends
            !self.spec_is_remote(),
    {
        self.0->OwnedLocalService_0
    }

    /// Wrap a freshly created service object on the server side.
    pub fn new(inner: S) -> (r: Self)
        ensures
            !r.spec_is_remote(),
            r.spec_local() == inner,
    {
        ServiceRefMut(InnerServiceRefMut::OwnedLocalService(inner))
    }

    /// Borrow the proxy of a client-side value. On a server-side value
    /// this is a usage error, so that form is ruled out here.
    pub fn deref(&self) -> (r: &ClientProxy)
        requires
            self.spec_is_remote(),
        ensures
            *r == self.spec_proxy(),
    {
        match &self.0 {
            InnerServiceRefMut::RemoteServiceRefMut(proxy) => proxy,
            InnerServiceRefMut::OwnedLocalService(_) => unreached(),
        }
    }

    /// Close the wrapped proxy of a client-side value: the counterpart of
    /// closing the proxy itself, for callers that hold the handle.
    pub fn close_request(&mut self) -> (r: Result<ClientMessage, RpcError>)
        requires
            old(self).spec_is_remote(),
        ensures
            final(self).spec_is_remote(),
            (final(self).spec_proxy(), r) == spec_close(old(self).spec_proxy()),
    {
        match &mut self.0 {
            InnerServiceRefMut::RemoteServiceRefMut(proxy) => proxy.close_request(),
            InnerServiceRefMut::OwnedLocalService(_) => unreached(),
        }
    }
}

/// Wrap a proxy on the client side; the macro-generated stubs build their
/// return values through this.
pub fn service_ref_from_service_proxy<S>(service_proxy: ClientProxy) -> (r: ServiceRefMut<S>)
    ensures
        r.spec_is_remote(),
        r.spec_proxy() == service_proxy,
{
    ServiceRefMut(InnerServiceRefMut::RemoteServiceRefMut(service_proxy))
}

/// Unwrap the server-side service object, if this is the server-side form.
pub fn local_service_from_service_ref<S>(service_ref: ServiceRefMut<S>) -> (r: Option<S>)
    ensures
        match r {
            Some(local) => !service_ref.spec_is_remote() && local == service_ref.spec_local(),
            None => service_ref.spec_is_remote(),
        },
{
    match service_ref.0 {
        InnerServiceRefMut::RemoteServiceRefMut(_) => None,
        InnerServiceRefMut::OwnedLocalService(local) => Some(local),
    }
}

} // verus!
