//! The server dispatch logic: one client message in, one server reply out.
//!
//! [`serve_message`] is the compute core of a connection's read-eval-reply
//! loop. The loop that owns the socket reads a frame, decodes it, hands the
//! message here, and writes the encoded reply back; on an `Err` it
//! terminates the connection. The contracts hold for every value a user's
//! [`RustyRpcServiceServer`] implementation may return: the dispatcher
//! trusts the handler for nothing.

use crate::errors::RpcError;
use crate::messages::{
    ClientMessage, ReturnValue, ServerMessage, ServiceId, SpecClientMessage, SpecReturnValue,
    SpecServerMessage,
};
use crate::service_collection::{wrap_add, ServiceCollection, ServiceEntry};
use crate::traits::{HandlerOutcome, RustyRpcServiceServer};
use vstd::prelude::*;

verus! {


/// Finish a method call: given the called entry's server object (taken
/// out by [`ServiceCollection::take_for_call`]) and the handler's
/// outcome, put the registry in order and build the reply. This is where
/// the reply's content is fixed, value by value:
///
/// - the handler's error is returned as it is, with the entry restored
///   and unlocked;
/// - a data outcome replies `MethodReturned(Data(bytes))` with exactly
///   the handler's bytes, the entry restored and unlocked;
/// - a service outcome registers exactly the handler's child object under
///   a fresh id from the allocator, borrowing from the restored,
///   still-locked entry, and replies `MethodReturned(Service(cid))` with
///   that id.
pub fn complete_call<S: RustyRpcServiceServer>(
    collection: &mut ServiceCollection<S>,
    sid: ServiceId,
    parent: Option<ServiceId>,
    server: S,
    outcome: Result<HandlerOutcome<S>, RpcError>,
) -> (r: Result<ServerMessage, RpcError>)
    requires
        old(collection).wf(),
        !old(collection)@.contains_key(sid.0),
        match parent {
            Some(p) => p.0 != sid.0 && old(collection)@.contains_key(p.0) && old(
                collection,
            )@[p.0].locked && forall|c: u64|
                old(collection)@.contains_key(c) ==> old(collection)@[c].parent != Some(p),
            None => true,
        },
        forall|c: u64| old(collection)@.contains_key(c) ==> old(collection)@[c].parent != Some(sid),
    ensures
        final(collection).wf(),
        match outcome {
            Err(e) => r == Err::<ServerMessage, RpcError>(e) && final(collection)@ == old(
                collection,
            )@.insert(sid.0, ServiceEntry { server: server, parent: parent, locked: false })
                && final(collection).next_service_id == old(collection).next_service_id,
            Ok(HandlerOutcome::Data(bytes)) => r == Ok::<ServerMessage, RpcError>(
                ServerMessage::MethodReturned(ReturnValue::Data(bytes)),
            ) && final(collection)@ == old(collection)@.insert(
                sid.0,
                ServiceEntry { server: server, parent: parent, locked: false },
            ) && final(collection).next_service_id == old(collection).next_service_id,
            Ok(HandlerOutcome::Service(child)) => r matches Ok(
                ServerMessage::MethodReturned(ReturnValue::Service(cid)),
            ) && cid.0 != sid.0 && !old(collection)@.contains_key(cid.0) && final(collection)@
                == old(collection)@.insert(
                sid.0,
                ServiceEntry { server: server, parent: parent, locked: true },
            ).insert(cid.0, ServiceEntry { server: child, parent: Some(sid), locked: false })
                && final(collection).next_service_id.0 == wrap_add(cid.0, 1) && (exists|k: u64|
                cid.0 == #[trigger] wrap_add(old(collection).next_service_id.0, k) && (forall|
                    j: u64,
                |
                    j < k ==> old(collection)@.contains_key(
                        #[trigger] wrap_add(old(collection).next_service_id.0, j),
                    ) || wrap_add(old(collection).next_service_id.0, j) == sid.0)),
        },
{
    match outcome {
        Err(e) => {
            collection.restore_service(
                sid,
                ServiceEntry { server, parent, locked: false },
            );
            Err(e)
        },
        Ok(HandlerOutcome::Data(bytes)) => {
            collection.restore_service(
                sid,
                ServiceEntry { server, parent, locked: false },
            );
            Ok(ServerMessage::MethodReturned(ReturnValue::Data(bytes)))
        },
        Ok(HandlerOutcome::Service(child)) => {
            collection.restore_service(
                sid,
                ServiceEntry { server, parent, locked: true },
            );
            proof {
                // The restored entry is its only candidate parent, and
                // nothing borrowed from it before the call.
                assert forall|c: u64| collection@.contains_key(c) implies collection@[c].parent
                    != Some(sid) by {
                    if c != sid.0 && collection@[c].parent == Some(sid) {
                        assert(old(collection)@.contains_key(c) && old(collection)@[c]
                            == collection@[c]);
                        assert(false);
                    }
                }
            }
            let ghost mid_map = collection@;
            let child_id = collection.register_service(child, Some(sid));
            proof {
                assert(final(collection)@ =~= old(collection)@.insert(
                    sid.0,
                    ServiceEntry { server: server, parent: parent, locked: true },
                ).insert(
                    child_id.0,
                    ServiceEntry { server: child, parent: Some(sid), locked: false },
                ));
                // The fresh id obeys the allocator law: every earlier
                // candidate was occupied, counting the restored entry.
                let next0 = old(collection).next_service_id.0;
                let k = choose|k: u64|
                    child_id.0 == #[trigger] wrap_add(next0, k) && (forall|j: u64|
                        j < k ==> mid_map.contains_key(#[trigger] wrap_add(next0, j)));
                assert forall|j: u64| j < k implies old(collection)@.contains_key(
                    #[trigger] wrap_add(next0, j),
                ) || wrap_add(next0, j) == sid.0 by {
                    assert(mid_map.contains_key(wrap_add(next0, j)));
                }
                assert(child_id.0 == wrap_add(next0, k));
            }
            Ok(ServerMessage::MethodReturned(ReturnValue::Service(child_id)))
        },
    }
}

/// Serve one decoded client message against the connection's registry and
/// produce the reply to send, or the fatal error that terminates the
/// connection.
///
/// - `DropService(sid)` releases the entry: it succeeds exactly when `sid`
///   is live and unlocked, replies `DropServiceDone`, and re-admits calls
///   on the entry's parent, if it had one.
/// - `CallMethod(sid, mid, args)` fails with `UnknownService` for a dead
///   id and with `ServiceBusy` for a locked entry (that is how a busy
///   parent surfaces); otherwise the handler runs on the called server
///   object with exactly `mid` and `args`, and [`complete_call`] turns
///   its outcome into the reply: `MethodReturned` with either its data
///   payload (entry unlocked again) or the id of the newly registered
///   child service (entry stays locked until the child is dropped).
///
/// The handler's outcome is internal to this function, so the clauses
/// below fix the reply's shape and the registry's shape; which payload or
/// child object stands in them is pinned, outcome by outcome, by
/// [`complete_call`]'s contract.
pub fn serve_message<S: RustyRpcServiceServer>(
    collection: &mut ServiceCollection<S>,
    msg: ClientMessage,
) -> (r: Result<ServerMessage, RpcError>)
    requires
        old(collection).wf(),
    ensures
        final(collection).wf(),
        match msg@ {
            SpecClientMessage::DropService(sid) => {
                &&& (r is Ok <==> old(collection)@.contains_key(sid) && !old(collection)@[sid].locked)
                &&& (r matches Ok(sm) ==> sm@ == SpecServerMessage::DropServiceDone && final(collection)@ == (match old(collection)@[sid].parent {
                    Some(p) => old(collection)@.remove(sid).insert(
                        p.0,
                        ServiceEntry {
                            server: old(collection)@[p.0].server,
                            parent: old(collection)@[p.0].parent,
                            locked: false,
                        },
                    ),
                    None => old(collection)@.remove(sid),
                }) && final(collection).next_service_id == old(collection).next_service_id)
                &&& (r matches Err(e) ==> final(collection).active_services == old(collection).active_services && final(collection).next_service_id == old(collection).next_service_id && e == (if !old(collection)@.contains_key(sid) {
                    RpcError::UnknownService(ServiceId(sid))
                } else {
                    RpcError::ServiceStillInUse(ServiceId(sid))
                }))
            },
            SpecClientMessage::CallMethod(sid, mid, args) => {
                &&& (!old(collection)@.contains_key(sid) ==> r == Err::<ServerMessage, RpcError>(
                    RpcError::UnknownService(ServiceId(sid)),
                ) && final(collection).active_services == old(collection).active_services && final(collection).next_service_id == old(collection).next_service_id)
                &&& (old(collection)@.contains_key(sid) && old(collection)@[sid].locked ==> r
                    == Err::<ServerMessage, RpcError>(RpcError::ServiceBusy(ServiceId(sid)))
                    && final(collection).active_services == old(collection).active_services
                    && final(collection).next_service_id == old(collection).next_service_id)
                &&& (old(collection)@.contains_key(sid) && !old(collection)@[sid].locked
                    ==> match r {
                    Err(_) => exists|s2: S|
                        #![auto]
                        final(collection)@ == old(collection)@.insert(
                            sid,
                            ServiceEntry {
                                server: s2,
                                parent: old(collection)@[sid].parent,
                                locked: false,
                            },
                        ) && final(collection).next_service_id == old(collection).next_service_id,
                    Ok(sm) => {
                        &&& sm@ is MethodReturned
                        &&& (sm@ matches SpecServerMessage::MethodReturned(
                            SpecReturnValue::Data(_),
                        ) ==> exists|s2: S|
                            #![auto]
                            final(collection)@ == old(collection)@.insert(
                                sid,
                                ServiceEntry {
                                    server: s2,
                                    parent: old(collection)@[sid].parent,
                                    locked: false,
                                },
                            ) && final(collection).next_service_id == old(collection).next_service_id)
                        &&& (sm@ matches SpecServerMessage::MethodReturned(
                            SpecReturnValue::Service(cid),
                        ) ==> cid != sid && !old(collection)@.contains_key(cid) && exists|
                            s2: S,
                            ch: S,
                        |
                            #![auto]
                            final(collection)@ == old(collection)@.insert(
                                sid,
                                ServiceEntry {
                                    server: s2,
                                    parent: old(collection)@[sid].parent,
                                    locked: true,
                                },
                            ).insert(
                                cid,
                                ServiceEntry {
                                    server: ch,
                                    parent: Some(ServiceId(sid)),
                                    locked: false,
                                },
                            ))
                    },
                })
            },
        },
{
    match msg {
        ClientMessage::DropService(sid) => {
            match collection.drop_service(sid) {
                Ok(_entry) => Ok(ServerMessage::DropServiceDone),
                Err(e) => Err(e),
            }
        },
        ClientMessage::CallMethod(sid, mid, args) => {
            let entry = match collection.take_for_call(sid) {
                Ok(entry) => entry,
                Err(e) => {
                    return Err(e);
                },
            };
            let ghost m0 = old(collection)@;
            proof {
                // The taken entry's parent link is intact in the registry,
                // no other live entry borrows from the same parent, and
                // nothing borrows from the unlocked entry itself.
                match entry.parent {
                    Some(p) => {
                        assert(p.0 != sid.0 && m0.contains_key(p.0) && m0[p.0].locked);
                        assert forall|c: u64| collection@.contains_key(c) implies collection@[c]
                            .parent != Some(p) by {
                            if collection@[c].parent == Some(p) {
                                assert(m0.contains_key(c) && m0[c] == collection@[c]);
                                assert(c != sid.0);
                                assert(m0[sid.0].parent == Some(p));
                                assert(false);
                            }
                        }
                    },
                    None => {},
                }
                assert forall|c: u64| collection@.contains_key(c) implies collection@[c].parent
                    != Some(sid) by {
                    if collection@[c].parent == Some(sid) {
                        assert(m0.contains_key(c) && m0[c] == collection@[c]);
                        assert(m0[sid.0].locked);
                        assert(false);
                    }
                }
            }
            let ServiceEntry { server: server_obj, parent, locked: _ } = entry;
            let mut server_obj = server_obj;
            let outcome = server_obj.parse_and_call_method_locally(mid, args);
            let ghost out0 = outcome;
            let ghost srv0 = server_obj;
            let r = complete_call(collection, sid, parent, server_obj, outcome);
            proof {
                match out0 {
                    Err(_) => {
                        assert(final(collection)@ =~= m0.insert(
                            sid.0,
                            ServiceEntry { server: srv0, parent: parent, locked: false },
                        ));
                    },
                    Ok(HandlerOutcome::Data(_)) => {
                        assert(final(collection)@ =~= m0.insert(
                            sid.0,
                            ServiceEntry { server: srv0, parent: parent, locked: false },
                        ));
                    },
                    Ok(HandlerOutcome::Service(child)) => {
                        match r {
                            Ok(ServerMessage::MethodReturned(ReturnValue::Service(cid))) => {
                                assert(!m0.contains_key(cid.0));
                                assert(final(collection)@ =~= m0.insert(
                                    sid.0,
                                    ServiceEntry { server: srv0, parent: parent, locked: true },
                                ).insert(
                                    cid.0,
                                    ServiceEntry {
                                        server: child,
                                        parent: Some(sid),
                                        locked: false,
                                    },
                                ));
                            },
                            _ => {
                                assert(false);
                            },
                        }
                    },
                }
            }
            r
        },
    }
}

/// Serve a whole sequence of client messages in order, stopping at the
/// first fatal error.
///
/// At most one request is in flight at a time: the i-th reply of the
/// result is [`serve_message`]'s reply to the i-th message, produced
/// before the next message is read, so replies appear in call order. A
/// drop request is answered with `DropServiceDone` and a call request
/// with `MethodReturned`, never the other way around; the content of each
/// call reply is fixed from the handler's outcome by [`complete_call`].
pub fn serve_messages<S: RustyRpcServiceServer>(
    collection: &mut ServiceCollection<S>,
    msgs: Vec<ClientMessage>,
) -> (r: (Vec<ServerMessage>, Option<RpcError>))
    requires
        old(collection).wf(),
    ensures
        final(collection).wf(),
        r.1 is None ==> r.0@.len() == msgs@.len(),
        r.1 is Some ==> r.0@.len() < msgs@.len(),
        forall|i: int|
            #![trigger msgs@[i]]
            0 <= i < r.0@.len() ==> ((msgs@[i]@ is DropService
                ==> r.0@[i]@ == SpecServerMessage::DropServiceDone) && (msgs@[i]@ is CallMethod
                ==> r.0@[i]@ is MethodReturned)),
{
    let ghost orig = msgs@;
    let mut pending = msgs;
    let mut replies: Vec<ServerMessage> = Vec::new();
    loop
        invariant_except_break
            collection.wf(),
            orig == msgs@,
            replies@.len() + pending@.len() == orig.len(),
            pending@ == orig.skip(replies@.len() as int),
            forall|i: int|
                #![trigger orig[i]]
                0 <= i < replies@.len() ==> ((orig[i]@ is DropService
                    ==> replies@[i]@ == SpecServerMessage::DropServiceDone) && (orig[i]@
                    is CallMethod ==> replies@[i]@ is MethodReturned)),
        ensures
            collection.wf(),
            orig == msgs@,
            replies@.len() == orig.len(),
            forall|i: int|
                #![trigger orig[i]]
                0 <= i < replies@.len() ==> ((orig[i]@ is DropService
                    ==> replies@[i]@ == SpecServerMessage::DropServiceDone) && (orig[i]@
                    is CallMethod ==> replies@[i]@ is MethodReturned)),
        decreases pending@.len(),
    {
        if pending.len() == 0 {
            break;
        }
        let msg = pending.remove(0);
        proof {
            assert(msg == orig[replies@.len() as int]);
            assert(pending@ =~= orig.skip(replies@.len() + 1int));
        }
        match serve_message(collection, msg) {
            Ok(reply) => {
                replies.push(reply);
            },
            Err(e) => {
                return (replies, Some(e));
            },
        }
    }
    (replies, None)
}

} // verus!
