use std::cell::RefCell;
use std::rc::Rc;

use rusty_rpc::client_proxy::ClientProxy;
use rusty_rpc::dispatch::{complete_call, serve_message, serve_messages};
use rusty_rpc::errors::RpcError;
use rusty_rpc::messages::{ClientMessage, MethodArgs, MethodId, ReturnValue, ServerMessage, ServiceId};
use rusty_rpc::service_collection::ServiceCollection;
use rusty_rpc::traits::{HandlerOutcome, RustyRpcServiceServer};
use rusty_rpc::values::{decode_value, encode_value, Value};
use rusty_rpc::wire::{decode_client_message, encode_client_message};

fn args_of(values: Vec<Value>) -> MethodArgs {
    MethodArgs(encode_value(&Value::Record(values)))
}

fn data_result(value: Value) -> Result<HandlerOutcome<HelloService>, RpcError> {
    Ok(HandlerOutcome::Data(encode_value(&value)))
}

fn arg_values(args: &MethodArgs) -> Vec<Value> {
    match decode_value(&args.0) {
        Ok(Value::Record(values)) => values,
        _ => panic!("malformed argument tuple"),
    }
}

/// The hello-world service: `foo() -> 123`, `bar(a) -> a`,
/// `baz(a1, a2: Foo) -> Foo`, and a service-returning method handing out a
/// constant sub-service.
enum HelloService {
    Dummy,
    Const(i32),
}

impl RustyRpcServiceServer for HelloService {
    fn parse_and_call_method_locally(
        &mut self,
        method_id: MethodId,
        method_args: MethodArgs,
    ) -> Result<HandlerOutcome<HelloService>, RpcError> {
        match self {
            HelloService::Dummy => match method_id.0 {
                0 => data_result(Value::I32(123)),
                1 => {
                    let args = arg_values(&method_args);
                    match &args[..] {
                        [Value::I32(a)] => data_result(Value::I32(*a)),
                        _ => Err(RpcError::UserFailure),
                    }
                }
                2 => {
                    // baz(a1, Foo { x, Bar { z } }) -> Foo { v, Bar { v } }
                    // with v = a1 + x + z.
                    let args = arg_values(&method_args);
                    match &args[..] {
                        [Value::I32(a1), Value::Record(foo)] => match &foo[..] {
                            [Value::I32(x), Value::Record(bar)] => match &bar[..] {
                                [Value::I32(z)] => {
                                    let v = a1 + x + z;
                                    data_result(Value::Record(vec![
                                        Value::I32(v),
                                        Value::Record(vec![Value::I32(v)]),
                                    ]))
                                }
                                _ => Err(RpcError::UserFailure),
                            },
                            _ => Err(RpcError::UserFailure),
                        },
                        _ => Err(RpcError::UserFailure),
                    }
                }
                3 => Ok(HandlerOutcome::Service(HelloService::Const(9999))),
                _ => Err(RpcError::UserFailure),
            },
            HelloService::Const(value) => match method_id.0 {
                0 => data_result(Value::I32(*value)),
                _ => Err(RpcError::UserFailure),
            },
        }
    }
}

/// Send one call through the wire codec, the dispatcher and back, and
/// decode the data result.
fn call_data(
    col: &mut ServiceCollection<HelloService>,
    proxy: &ClientProxy,
    method_id: u64,
    args: Vec<Value>,
) -> Value {
    let msg = proxy.call_message(MethodId(method_id), args_of(args));
    let wire_bytes = encode_client_message(&msg);
    let received = decode_client_message(&wire_bytes).expect("client message survives the wire");
    let reply = serve_message(col, received).expect("call succeeds");
    match proxy.handle_call_reply(reply).expect("reply is a method return") {
        ReturnValue::Data(bytes) => decode_value(&bytes).expect("well-formed return value"),
        ReturnValue::Service(_) => panic!("expected data, got a service"),
    }
}

/// Send one service-returning call and build the child proxy.
fn call_service(
    col: &mut ServiceCollection<HelloService>,
    proxy: &ClientProxy,
    method_id: u64,
) -> ClientProxy {
    let msg = proxy.call_message(MethodId(method_id), args_of(vec![]));
    let reply = serve_message(col, msg).expect("call succeeds");
    match proxy.handle_call_reply(reply).expect("reply is a method return") {
        ReturnValue::Service(sid) => ClientProxy::from_service_id(sid),
        ReturnValue::Data(_) => panic!("expected a service, got data"),
    }
}

fn close_proxy(col: &mut ServiceCollection<HelloService>, proxy: &mut ClientProxy) {
    let msg = proxy.close_request().expect("first close");
    let reply = serve_message(col, msg).expect("drop succeeds");
    ClientProxy::handle_close_reply(reply).expect("drop confirmed");
}

#[test]
fn hello_world_calls() {
    let mut col: ServiceCollection<HelloService> = ServiceCollection::new();
    let initial = col.register_service(HelloService::Dummy, None);
    assert_eq!(ServiceId(0), initial);
    let mut proxy = ClientProxy::initial();
    assert_eq!(ServiceId(0), proxy.service_id);

    assert_eq!(Value::I32(123), call_data(&mut col, &proxy, 0, vec![]));
    assert_eq!(Value::I32(2), call_data(&mut col, &proxy, 1, vec![Value::I32(2)]));

    let foo = Value::Record(vec![Value::I32(80), Value::Record(vec![Value::I32(7)])]);
    let result = call_data(&mut col, &proxy, 2, vec![Value::I32(900), foo]);
    assert_eq!(
        Value::Record(vec![Value::I32(987), Value::Record(vec![Value::I32(987)])]),
        result
    );

    let mut sub = call_service(&mut col, &proxy, 3);
    assert_eq!(Value::I32(9999), call_data(&mut col, &sub, 0, vec![]));
    close_proxy(&mut col, &mut sub);

    close_proxy(&mut col, &mut proxy);
    assert_eq!(0, col.num_live_services());
}

#[test]
fn double_close_fails_without_wire_traffic() {
    let mut col: ServiceCollection<HelloService> = ServiceCollection::new();
    col.register_service(HelloService::Dummy, None);
    let mut proxy = ClientProxy::initial();

    close_proxy(&mut col, &mut proxy);
    // The second close yields an error and no message, so nothing can go
    // on the wire.
    assert_eq!(Err(RpcError::DoubleClose), proxy.close_request());
    // The server saw exactly one drop: the registry is already empty.
    assert_eq!(0, col.num_live_services());
}

#[test]
fn replies_come_in_call_order() {
    let mut col: ServiceCollection<HelloService> = ServiceCollection::new();
    col.register_service(HelloService::Dummy, None);
    let proxy = ClientProxy::initial();

    let requests = vec![
        proxy.call_message(MethodId(0), args_of(vec![])),
        proxy.call_message(MethodId(1), args_of(vec![Value::I32(31)])),
        proxy.call_message(MethodId(1), args_of(vec![Value::I32(32)])),
        ClientMessage::DropService(ServiceId(0)),
    ];
    let (replies, fatal) = serve_messages(&mut col, requests);
    assert!(fatal.is_none());
    assert_eq!(4, replies.len());

    // The i-th reply answers the i-th request.
    let expected = vec![Value::I32(123), Value::I32(31), Value::I32(32)];
    for (reply, want) in replies.iter().take(3).zip(expected) {
        match reply {
            ServerMessage::MethodReturned(ReturnValue::Data(bytes)) => {
                assert_eq!(Ok(want), decode_value(bytes));
            }
            _ => panic!("expected a data return"),
        }
    }
    assert_eq!(ServerMessage::DropServiceDone, replies[3]);
    assert_eq!(0, col.num_live_services());
}

#[test]
fn call_on_unknown_service_is_fatal() {
    let mut col: ServiceCollection<HelloService> = ServiceCollection::new();
    col.register_service(HelloService::Dummy, None);
    let bogus = ClientProxy::from_service_id(ServiceId(9));
    let msg = bogus.call_message(MethodId(0), args_of(vec![]));
    assert_eq!(Err(RpcError::UnknownService(ServiceId(9))), serve_message(&mut col, msg));

    // The fatal error stops the loop before later requests are served.
    let proxy = ClientProxy::initial();
    let requests = vec![
        bogus.call_message(MethodId(0), args_of(vec![])),
        proxy.call_message(MethodId(0), args_of(vec![])),
    ];
    let (replies, fatal) = serve_messages(&mut col, requests);
    assert_eq!(Some(RpcError::UnknownService(ServiceId(9))), fatal);
    assert_eq!(0, replies.len());
}

#[test]
fn replies_before_a_fatal_error_are_kept_in_order() {
    let mut col: ServiceCollection<HelloService> = ServiceCollection::new();
    col.register_service(HelloService::Dummy, None);
    let proxy = ClientProxy::initial();

    let requests = vec![
        proxy.call_message(MethodId(0), args_of(vec![])),
        ClientMessage::DropService(ServiceId(99)),
        proxy.call_message(MethodId(0), args_of(vec![])),
    ];
    let (replies, fatal) = serve_messages(&mut col, requests);
    // The first request was answered before the second one failed; the
    // third was never read.
    assert_eq!(1, replies.len());
    match &replies[0] {
        ServerMessage::MethodReturned(ReturnValue::Data(bytes)) => {
            assert_eq!(Ok(Value::I32(123)), decode_value(bytes));
        }
        _ => panic!("expected a data return"),
    }
    assert_eq!(Some(RpcError::UnknownService(ServiceId(99))), fatal);
}

#[test]
fn user_failure_is_fatal() {
    let mut col: ServiceCollection<HelloService> = ServiceCollection::new();
    col.register_service(HelloService::Dummy, None);
    let proxy = ClientProxy::initial();
    // Method id 7 does not exist; the handler reports a user failure,
    // which terminates the connection.
    let msg = proxy.call_message(MethodId(7), args_of(vec![]));
    assert_eq!(Err(RpcError::UserFailure), serve_message(&mut col, msg));
}

#[test]
fn complete_call_returns_exactly_the_handler_outcome() {
    let mut col: ServiceCollection<HelloService> = ServiceCollection::new();
    col.register_service(HelloService::Dummy, None);

    // A data outcome: the reply carries exactly the handler's bytes.
    let entry = col.take_for_call(ServiceId(0)).expect("admitted");
    let reply = complete_call(
        &mut col,
        ServiceId(0),
        entry.parent,
        entry.server,
        Ok(HandlerOutcome::Data(vec![1, 2, 3])),
    );
    assert_eq!(
        Ok(ServerMessage::MethodReturned(ReturnValue::Data(vec![1, 2, 3]))),
        reply
    );

    // An error outcome: the handler's own error comes back, the entry is
    // restored and callable again.
    let entry = col.take_for_call(ServiceId(0)).expect("restored and unlocked");
    let reply = complete_call(
        &mut col,
        ServiceId(0),
        entry.parent,
        entry.server,
        Err(RpcError::UserFailure),
    );
    assert_eq!(Err(RpcError::UserFailure), reply);

    // A service outcome: the handler's child object is registered under a
    // fresh id and the called entry stays locked until the child drops.
    let entry = col.take_for_call(ServiceId(0)).expect("restored again");
    let reply = complete_call(
        &mut col,
        ServiceId(0),
        entry.parent,
        entry.server,
        Ok(HandlerOutcome::Service(HelloService::Const(5))),
    );
    let child_id = match reply {
        Ok(ServerMessage::MethodReturned(ReturnValue::Service(child_id))) => child_id,
        other => panic!("expected a service reply, got {:?}", other),
    };
    assert_ne!(ServiceId(0), child_id);
    assert!(matches!(
        col.take_for_call(ServiceId(0)).map(|e| e.server),
        Err(RpcError::ServiceBusy(_))
    ));
    // The registered child IS the handler's object: calling it yields its
    // constant.
    let child_proxy = ClientProxy::from_service_id(child_id);
    let msg = child_proxy.call_message(MethodId(0), args_of(vec![]));
    let child_reply = serve_message(&mut col, msg).expect("child call succeeds");
    match child_proxy.handle_call_reply(child_reply).expect("method return") {
        ReturnValue::Data(bytes) => assert_eq!(Ok(Value::I32(5)), decode_value(&bytes)),
        ReturnValue::Service(_) => panic!("expected data"),
    }
    assert!(col.drop_service(child_id).is_ok());
    assert!(col.take_for_call(ServiceId(0)).is_ok());
}

#[test]
fn wrong_reply_kind_is_a_protocol_violation() {
    let proxy = ClientProxy::initial();
    assert_eq!(
        Err(RpcError::ProtocolViolation),
        proxy.handle_call_reply(ServerMessage::DropServiceDone)
    );
    assert_eq!(
        Err(RpcError::ProtocolViolation),
        ClientProxy::handle_close_reply(ServerMessage::MethodReturned(ReturnValue::Data(vec![])))
    );
}

/// The parent/child service pair: the child writes through to the
/// parent's state, which both reach through a shared cell.
enum ParentChild {
    Parent(Rc<RefCell<i32>>),
    Child(Rc<RefCell<i32>>),
}

impl RustyRpcServiceServer for ParentChild {
    fn parse_and_call_method_locally(
        &mut self,
        method_id: MethodId,
        method_args: MethodArgs,
    ) -> Result<HandlerOutcome<ParentChild>, RpcError> {
        match self {
            ParentChild::Parent(state) => match method_id.0 {
                // child() -> &ChildService
                0 => Ok(HandlerOutcome::Service(ParentChild::Child(Rc::clone(state)))),
                // get() -> i32
                1 => Ok(HandlerOutcome::Data(encode_value(&Value::I32(*state.borrow())))),
                _ => Err(RpcError::UserFailure),
            },
            ParentChild::Child(state) => match method_id.0 {
                // set(v) -> i32
                0 => match decode_value(&method_args.0) {
                    Ok(Value::Record(values)) => match &values[..] {
                        [Value::I32(v)] => {
                            *state.borrow_mut() = *v;
                            Ok(HandlerOutcome::Data(encode_value(&Value::I32(*v))))
                        }
                        _ => Err(RpcError::UserFailure),
                    },
                    _ => Err(RpcError::UserFailure),
                },
                _ => Err(RpcError::UserFailure),
            },
        }
    }
}

fn pc_get(col: &mut ServiceCollection<ParentChild>, proxy: &ClientProxy) -> Result<i32, RpcError> {
    let msg = proxy.call_message(MethodId(1), MethodArgs(encode_value(&Value::Record(vec![]))));
    let reply = serve_message(col, msg)?;
    match proxy.handle_call_reply(reply)? {
        ReturnValue::Data(bytes) => match decode_value(&bytes) {
            Ok(Value::I32(v)) => Ok(v),
            _ => panic!("malformed get() result"),
        },
        ReturnValue::Service(_) => panic!("expected data"),
    }
}

fn pc_set(col: &mut ServiceCollection<ParentChild>, proxy: &ClientProxy, v: i32) -> i32 {
    let args = MethodArgs(encode_value(&Value::Record(vec![Value::I32(v)])));
    let msg = proxy.call_message(MethodId(0), args);
    let reply = serve_message(col, msg).expect("set succeeds");
    match proxy.handle_call_reply(reply).expect("method return") {
        ReturnValue::Data(bytes) => match decode_value(&bytes) {
            Ok(Value::I32(got)) => got,
            _ => panic!("malformed set() result"),
        },
        ReturnValue::Service(_) => panic!("expected data"),
    }
}

fn pc_child(col: &mut ServiceCollection<ParentChild>, proxy: &ClientProxy) -> ClientProxy {
    let msg = proxy.call_message(MethodId(0), MethodArgs(encode_value(&Value::Record(vec![]))));
    let reply = serve_message(col, msg).expect("child() succeeds");
    match proxy.handle_call_reply(reply).expect("method return") {
        ReturnValue::Service(sid) => ClientProxy::from_service_id(sid),
        ReturnValue::Data(_) => panic!("expected a service"),
    }
}

fn pc_close(col: &mut ServiceCollection<ParentChild>, proxy: &mut ClientProxy) {
    let msg = proxy.close_request().expect("first close");
    let reply = serve_message(col, msg).expect("drop succeeds");
    ClientProxy::handle_close_reply(reply).expect("drop confirmed");
}

#[test]
fn parent_child_session() {
    let mut col: ServiceCollection<ParentChild> = ServiceCollection::new();
    let state = Rc::new(RefCell::new(123));
    assert_eq!(ServiceId(0), col.register_service(ParentChild::Parent(state), None));
    let mut parent = ClientProxy::initial();

    assert_eq!(Ok(123), pc_get(&mut col, &parent));

    let mut c1 = pc_child(&mut col, &parent);
    // Nesting safety: while the child is live, the parent is busy, which
    // the client observes as a fatal connection error.
    assert_eq!(Err(RpcError::ServiceBusy(ServiceId(0))), pc_get(&mut col, &parent));
    assert_eq!(456, pc_set(&mut col, &c1, 456));
    pc_close(&mut col, &mut c1);

    assert_eq!(Ok(456), pc_get(&mut col, &parent));

    let mut c2 = pc_child(&mut col, &parent);
    assert_eq!(789, pc_set(&mut col, &c2, 789));
    pc_close(&mut col, &mut c2);

    assert_eq!(Ok(789), pc_get(&mut col, &parent));

    pc_close(&mut col, &mut parent);
    assert_eq!(0, col.num_live_services());
}

/// A tree whose nodes hand out node services for their children, each
/// borrowing from the service it came from.
struct TreeNode {
    value: i32,
    children: Vec<Rc<RefCell<TreeNode>>>,
}

enum TreeService {
    Tree(Rc<RefCell<TreeNode>>),
    Node(Rc<RefCell<TreeNode>>),
}

impl RustyRpcServiceServer for TreeService {
    fn parse_and_call_method_locally(
        &mut self,
        method_id: MethodId,
        method_args: MethodArgs,
    ) -> Result<HandlerOutcome<TreeService>, RpcError> {
        match self {
            // root() -> &NodeService
            TreeService::Tree(root) => match method_id.0 {
                0 => Ok(HandlerOutcome::Service(TreeService::Node(Rc::clone(root)))),
                _ => Err(RpcError::UserFailure),
            },
            TreeService::Node(node) => match method_id.0 {
                // nth_child(n) -> &NodeService
                0 => match decode_value(&method_args.0) {
                    Ok(Value::Record(values)) => match &values[..] {
                        [Value::I32(n)] => {
                            let child = match node.borrow().children.get(*n as usize) {
                                Some(child) => Rc::clone(child),
                                None => return Err(RpcError::UserFailure),
                            };
                            Ok(HandlerOutcome::Service(TreeService::Node(child)))
                        }
                        _ => Err(RpcError::UserFailure),
                    },
                    _ => Err(RpcError::UserFailure),
                },
                // get_value() -> i32
                1 => Ok(HandlerOutcome::Data(encode_value(&Value::I32(node.borrow().value)))),
                _ => Err(RpcError::UserFailure),
            },
        }
    }
}

fn tree_call_service(
    col: &mut ServiceCollection<TreeService>,
    proxy: &ClientProxy,
    args: Vec<Value>,
) -> Result<ClientProxy, RpcError> {
    let msg = proxy.call_message(MethodId(0), MethodArgs(encode_value(&Value::Record(args))));
    let reply = serve_message(col, msg)?;
    match proxy.handle_call_reply(reply)? {
        ReturnValue::Service(sid) => Ok(ClientProxy::from_service_id(sid)),
        ReturnValue::Data(_) => panic!("expected a service"),
    }
}

fn tree_get_value(col: &mut ServiceCollection<TreeService>, proxy: &ClientProxy) -> Result<i32, RpcError> {
    let msg = proxy.call_message(MethodId(1), MethodArgs(encode_value(&Value::Record(vec![]))));
    let reply = serve_message(col, msg)?;
    match proxy.handle_call_reply(reply)? {
        ReturnValue::Data(bytes) => match decode_value(&bytes) {
            Ok(Value::I32(v)) => Ok(v),
            _ => panic!("malformed value"),
        },
        ReturnValue::Service(_) => panic!("expected data"),
    }
}

fn tree_close(col: &mut ServiceCollection<TreeService>, proxy: &mut ClientProxy) {
    let msg = proxy.close_request().expect("first close");
    let reply = serve_message(col, msg).expect("drop succeeds");
    ClientProxy::handle_close_reply(reply).expect("drop confirmed");
}

#[test]
fn tree_walk_with_nested_borrows() {
    let leaf1 = Rc::new(RefCell::new(TreeNode { value: 1, children: vec![] }));
    let leaf2 = Rc::new(RefCell::new(TreeNode { value: 2, children: vec![] }));
    let root = Rc::new(RefCell::new(TreeNode {
        value: 0,
        children: vec![Rc::clone(&leaf1), Rc::clone(&leaf2)],
    }));

    let mut col: ServiceCollection<TreeService> = ServiceCollection::new();
    assert_eq!(ServiceId(0), col.register_service(TreeService::Tree(root), None));
    let mut tree = ClientProxy::initial();

    let mut node0 = tree_call_service(&mut col, &tree, vec![]).expect("root()");
    // Nesting safety at the first level: the tree service is now busy.
    assert!(matches!(
        tree_call_service(&mut col, &tree, vec![]),
        Err(RpcError::ServiceBusy(_))
    ));
    assert_eq!(Ok(0), tree_get_value(&mut col, &node0));

    let mut node1 = tree_call_service(&mut col, &node0, vec![Value::I32(0)]).expect("nth_child(0)");
    // Nesting safety at the second level.
    assert!(matches!(tree_get_value(&mut col, &node0), Err(RpcError::ServiceBusy(_))));
    assert_eq!(Ok(1), tree_get_value(&mut col, &node1));
    tree_close(&mut col, &mut node1);

    let mut node2 = tree_call_service(&mut col, &node0, vec![Value::I32(1)]).expect("nth_child(1)");
    assert_eq!(Ok(2), tree_get_value(&mut col, &node2));
    tree_close(&mut col, &mut node2);

    tree_close(&mut col, &mut node0);
    tree_close(&mut col, &mut tree);
    assert_eq!(0, col.num_live_services());
}
