//! The wire codec for [`ClientMessage`] and [`ServerMessage`].
//!
//! Each message becomes one tagged byte string; the transport delivers whole
//! frames, so a decoder always sees a complete message. The encoding is
//! fixed here in the `spec` functions, the executable pair is proved equal
//! to them, and the round-trip lemmas show that decoding inverts encoding
//! for every message. Decoding anything else fails with
//! [`RpcError::Malformed`] and never yields a partial result.
//!
//! Layout, all integers little-endian:
//! - `DropService(sid)`: tag `0`, then 8 bytes of `sid`.
//! - `CallMethod(sid, mid, args)`: tag `1`, 8 bytes of `sid`, 8 bytes of
//!   `mid`, then the argument bytes to the end of the frame.
//! - `DropServiceDone`: tag `0`.
//! - `MethodReturned(Data(b))`: tag `1`, tag `0`, then `b` to the end.
//! - `MethodReturned(Service(sid))`: tag `1`, tag `1`, 8 bytes of `sid`.

use crate::errors::RpcError;
use crate::messages::{
    ClientMessage, MethodArgs, MethodId, ReturnValue, ServerMessage, ServiceId,
    SpecClientMessage, SpecReturnValue, SpecServerMessage,
};
use vstd::bytes::{
    lemma_auto_spec_u64_to_from_le_bytes, spec_u64_from_le_bytes, spec_u64_to_le_bytes,
    u64_from_le_bytes, u64_to_le_bytes,
};
use vstd::prelude::*;
use vstd::slice::slice_to_vec;

verus! {

/// The byte string that encodes a client message.
pub open spec fn spec_encode_client(m: SpecClientMessage) -> Seq<u8> {
    match m {
        SpecClientMessage::DropService(sid) => seq![0u8] + spec_u64_to_le_bytes(sid),
        SpecClientMessage::CallMethod(sid, mid, args) => seq![1u8] + spec_u64_to_le_bytes(sid)
            + spec_u64_to_le_bytes(mid) + args,
    }
}

/// The client message a byte string encodes, if any.
pub open spec fn spec_decode_client(s: Seq<u8>) -> Option<SpecClientMessage> {
    if s.len() == 9 && s[0] == 0u8 {
        Some(SpecClientMessage::DropService(spec_u64_from_le_bytes(s.subrange(1, 9))))
    } else if s.len() >= 17 && s[0] == 1u8 {
        Some(
            SpecClientMessage::CallMethod(
                spec_u64_from_le_bytes(s.subrange(1, 9)),
                spec_u64_from_le_bytes(s.subrange(9, 17)),
                s.skip(17),
            ),
        )
    } else {
        None
    }
}

/// The byte string that encodes a server message.
pub open spec fn spec_encode_server(m: SpecServerMessage) -> Seq<u8> {
    match m {
        SpecServerMessage::DropServiceDone => seq![0u8],
        SpecServerMessage::MethodReturned(SpecReturnValue::Data(bytes)) => seq![1u8, 0u8] + bytes,
        SpecServerMessage::MethodReturned(SpecReturnValue::Service(sid)) => seq![1u8, 1u8]
            + spec_u64_to_le_bytes(sid),
    }
}

/// The server message a byte string encodes, if any.
pub open spec fn spec_decode_server(s: Seq<u8>) -> Option<SpecServerMessage> {
    if s.len() == 1 && s[0] == 0u8 {
        Some(SpecServerMessage::DropServiceDone)
    } else if s.len() >= 2 && s[0] == 1u8 && s[1] == 0u8 {
        Some(SpecServerMessage::MethodReturned(SpecReturnValue::Data(s.skip(2))))
    } else if s.len() == 10 && s[0] == 1u8 && s[1] == 1u8 {
        Some(
            SpecServerMessage::MethodReturned(
                SpecReturnValue::Service(spec_u64_from_le_bytes(s.subrange(2, 10))),
            ),
        )
    } else {
        None
    }
}

/// Round trip for client messages: decoding an encoded message yields the
/// message back, for every message.
pub proof fn lemma_client_round_trip(m: SpecClientMessage)
    ensures
        spec_decode_client(spec_encode_client(m)) == Some(m),
{
    lemma_auto_spec_u64_to_from_le_bytes();
    let e = spec_encode_client(m);
    match m {
        SpecClientMessage::DropService(sid) => {
            assert(e.subrange(1, 9) =~= spec_u64_to_le_bytes(sid));
        },
        SpecClientMessage::CallMethod(sid, mid, args) => {
            assert(e.subrange(1, 9) =~= spec_u64_to_le_bytes(sid));
            assert(e.subrange(9, 17) =~= spec_u64_to_le_bytes(mid));
            assert(e.skip(17) =~= args);
        },
    }
}

/// Round trip for server messages: decoding an encoded message yields the
/// message back, for every message.
pub proof fn lemma_server_round_trip(m: SpecServerMessage)
    ensures
        spec_decode_server(spec_encode_server(m)) == Some(m),
{
    lemma_auto_spec_u64_to_from_le_bytes();
    let e = spec_encode_server(m);
    match m {
        SpecServerMessage::DropServiceDone => {
        },
        SpecServerMessage::MethodReturned(SpecReturnValue::Data(bytes)) => {
            assert(e.skip(2) =~= bytes);
        },
        SpecServerMessage::MethodReturned(SpecReturnValue::Service(sid)) => {
            assert(e.subrange(2, 10) =~= spec_u64_to_le_bytes(sid));
        },
    }
}

/// Encode a client message for the wire.
pub fn encode_client_message(msg: &ClientMessage) -> (r: Vec<u8>)
    ensures
        r@ == spec_encode_client(msg@),
{
    proof {
        lemma_auto_spec_u64_to_from_le_bytes();
    }
    match msg {
        ClientMessage::DropService(sid) => {
            let mut out: Vec<u8> = Vec::new();
            out.push(0u8);
            let mut sid_bytes = u64_to_le_bytes(sid.0);
            out.append(&mut sid_bytes);
            proof {
                assert(out@ =~= spec_encode_client(msg@));
            }
            out
        },
        ClientMessage::CallMethod(sid, mid, args) => {
            let mut out: Vec<u8> = Vec::new();
            out.push(1u8);
            let mut sid_bytes = u64_to_le_bytes(sid.0);
            out.append(&mut sid_bytes);
            let mut mid_bytes = u64_to_le_bytes(mid.0);
            out.append(&mut mid_bytes);
            let mut arg_bytes = slice_to_vec(args.0.as_slice());
            out.append(&mut arg_bytes);
            proof {
                assert(out@ =~= spec_encode_client(msg@));
            }
            out
        },
    }
}

/// Decode a client message from one whole frame. Fails with `Malformed` on
/// every byte string that no client message encodes to.
pub fn decode_client_message(bytes: &[u8]) -> (r: Result<ClientMessage, RpcError>)
    ensures
        match spec_decode_client(bytes@) {
            Some(m) => r matches Ok(cm) && cm@ == m,
            None => r == Err::<ClientMessage, RpcError>(RpcError::Malformed),
        },
{
    let n = bytes.len();
    if n == 9 && bytes[0] == 0u8 {
        let sid = u64_from_le_bytes(&bytes[1..9]);
        Ok(ClientMessage::DropService(ServiceId(sid)))
    } else if n >= 17 && bytes[0] == 1u8 {
        let sid = u64_from_le_bytes(&bytes[1..9]);
        let mid = u64_from_le_bytes(&bytes[9..17]);
        let args = slice_to_vec(&bytes[17..n]);
        proof {
            assert(bytes@.subrange(17, n as int) =~= bytes@.skip(17));
        }
        Ok(ClientMessage::CallMethod(ServiceId(sid), MethodId(mid), MethodArgs(args)))
    } else {
        Err(RpcError::Malformed)
    }
}

/// Encode a server message for the wire.
pub fn encode_server_message(msg: &ServerMessage) -> (r: Vec<u8>)
    ensures
        r@ == spec_encode_server(msg@),
{
    proof {
        lemma_auto_spec_u64_to_from_le_bytes();
    }
    match msg {
        ServerMessage::DropServiceDone => {
            let mut out: Vec<u8> = Vec::new();
            out.push(0u8);
            proof {
                assert(out@ =~= spec_encode_server(msg@));
            }
            out
        },
        ServerMessage::MethodReturned(ReturnValue::Data(bytes)) => {
            let mut out: Vec<u8> = Vec::new();
            out.push(1u8);
            out.push(0u8);
            let mut payload = slice_to_vec(bytes.as_slice());
            out.append(&mut payload);
            proof {
                assert(out@ =~= spec_encode_server(msg@));
            }
            out
        },
        ServerMessage::MethodReturned(ReturnValue::Service(sid)) => {
            let mut out: Vec<u8> = Vec::new();
            out.push(1u8);
            out.push(1u8);
            let mut sid_bytes = u64_to_le_bytes(sid.0);
            out.append(&mut sid_bytes);
            proof {
                assert(out@ =~= spec_encode_server(msg@));
            }
            out
        },
    }
}

/// Decode a server message from one whole frame. Fails with `Malformed` on
/// every byte string that no server message encodes to.
pub fn decode_server_message(bytes: &[u8]) -> (r: Result<ServerMessage, RpcError>)
    ensures
        match spec_decode_server(bytes@) {
            Some(m) => r matches Ok(sm) && sm@ == m,
            None => r == Err::<ServerMessage, RpcError>(RpcError::Malformed),
        },
{
    let n = bytes.len();
    if n == 1 && bytes[0] == 0u8 {
        Ok(ServerMessage::DropServiceDone)
    } else if n >= 2 && bytes[0] == 1u8 && bytes[1] == 0u8 {
        let payload = slice_to_vec(&bytes[2..n]);
        proof {
            assert(bytes@.subrange(2, n as int) =~= bytes@.skip(2));
        }
        Ok(ServerMessage::MethodReturned(ReturnValue::Data(payload)))
    } else if n == 10 && bytes[0] == 1u8 && bytes[1] == 1u8 {
        let sid = u64_from_le_bytes(&bytes[2..10]);
        Ok(ServerMessage::MethodReturned(ReturnValue::Service(ServiceId(sid))))
    } else {
        Err(RpcError::Malformed)
    }
}

} // verus!
