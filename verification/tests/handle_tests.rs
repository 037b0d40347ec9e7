use rusty_rpc::client_proxy::ClientProxy;
use rusty_rpc::errors::RpcError;
use rusty_rpc::messages::{ClientMessage, MethodArgs, MethodId, ServiceId};
use rusty_rpc::service_ref::{
    local_service_from_service_ref, service_ref_from_service_proxy, ServiceRefMut,
};

#[test]
fn service_id_increment_wraps() {
    let mut sid = ServiceId(0);
    sid.increment();
    assert_eq!(ServiceId(1), sid);
    let mut top = ServiceId(u64::MAX);
    top.increment();
    assert_eq!(ServiceId(0), top);
}

#[test]
fn proxy_builds_call_messages() {
    let proxy = ClientProxy::from_service_id(ServiceId(4));
    assert!(!proxy.is_closed);
    let msg = proxy.call_message(MethodId(2), MethodArgs(vec![1, 2]));
    assert_eq!(
        ClientMessage::CallMethod(ServiceId(4), MethodId(2), MethodArgs(vec![1, 2])),
        msg
    );
}

#[test]
fn proxy_close_yields_one_drop_message() {
    let mut proxy = ClientProxy::from_service_id(ServiceId(6));
    assert_eq!(Ok(ClientMessage::DropService(ServiceId(6))), proxy.close_request());
    assert!(proxy.is_closed);
    assert_eq!(Err(RpcError::DoubleClose), proxy.close_request());
    assert_eq!(Err(RpcError::DoubleClose), proxy.close_request());
}

#[test]
fn local_service_ref_round_trips_the_server() {
    let service_ref: ServiceRefMut<i32> = ServiceRefMut::new(31);
    assert_eq!(Some(31), local_service_from_service_ref(service_ref));
}

#[test]
fn remote_service_ref_wraps_the_proxy() {
    let proxy = ClientProxy::from_service_id(ServiceId(5));
    let mut service_ref: ServiceRefMut<i32> = service_ref_from_service_proxy(proxy);
    assert_eq!(ServiceId(5), service_ref.deref().service_id);
    // The client-side form holds no local service.
    let closed = service_ref.close_request();
    assert_eq!(Ok(ClientMessage::DropService(ServiceId(5))), closed);
    assert_eq!(Err(RpcError::DoubleClose), service_ref.close_request());
    assert_eq!(None, local_service_from_service_ref(service_ref));
}

#[test]
fn error_messages_name_the_failure() {
    assert_eq!("service proxy closed twice", RpcError::DoubleClose.message());
    assert_eq!("malformed message", RpcError::Malformed.message());
    assert!(RpcError::ServiceBusy(ServiceId(1)).message().contains("busy"));
}
