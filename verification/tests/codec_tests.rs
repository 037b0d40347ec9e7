use rusty_rpc::errors::RpcError;
use rusty_rpc::framing::{encode_frame, try_deframe};
use rusty_rpc::messages::{ClientMessage, MethodArgs, MethodId, ReturnValue, ServerMessage, ServiceId};
use rusty_rpc::values::{decode_value, encode_value, Value};
use rusty_rpc::wire::{
    decode_client_message, decode_server_message, encode_client_message, encode_server_message,
};

#[test]
fn client_message_exact_bytes() {
    let drop_msg = ClientMessage::DropService(ServiceId(5));
    assert_eq!(vec![0u8, 5, 0, 0, 0, 0, 0, 0, 0], encode_client_message(&drop_msg));

    let call_msg = ClientMessage::CallMethod(ServiceId(1), MethodId(2), MethodArgs(vec![9, 8]));
    assert_eq!(
        vec![1u8, 1, 0, 0, 0, 0, 0, 0, 0, 2, 0, 0, 0, 0, 0, 0, 0, 9, 8],
        encode_client_message(&call_msg)
    );
}

#[test]
fn client_message_round_trip() {
    let messages = vec![
        ClientMessage::DropService(ServiceId(0)),
        ClientMessage::DropService(ServiceId(u64::MAX)),
        ClientMessage::CallMethod(ServiceId(7), MethodId(9), MethodArgs(vec![])),
        ClientMessage::CallMethod(ServiceId(u64::MAX), MethodId(0), MethodArgs(vec![1, 2, 3])),
    ];
    for msg in messages {
        let encoded = encode_client_message(&msg);
        assert_eq!(Ok(msg), decode_client_message(&encoded));
    }
}

#[test]
fn client_message_malformed() {
    assert_eq!(Err(RpcError::Malformed), decode_client_message(&[]));
    // Tag byte that no message uses.
    assert_eq!(Err(RpcError::Malformed), decode_client_message(&[2, 0, 0, 0, 0, 0, 0, 0, 0]));
    // DropService with a truncated id.
    assert_eq!(Err(RpcError::Malformed), decode_client_message(&[0, 1, 2]));
    // DropService with trailing bytes.
    assert_eq!(
        Err(RpcError::Malformed),
        decode_client_message(&[0, 5, 0, 0, 0, 0, 0, 0, 0, 0])
    );
    // CallMethod cut short inside the method id.
    assert_eq!(
        Err(RpcError::Malformed),
        decode_client_message(&[1, 1, 0, 0, 0, 0, 0, 0, 0, 2, 0, 0])
    );
}

#[test]
fn server_message_exact_bytes() {
    assert_eq!(vec![0u8], encode_server_message(&ServerMessage::DropServiceDone));
    assert_eq!(
        vec![1u8, 0, 7, 7],
        encode_server_message(&ServerMessage::MethodReturned(ReturnValue::Data(vec![7, 7])))
    );
    assert_eq!(
        vec![1u8, 1, 3, 0, 0, 0, 0, 0, 0, 0],
        encode_server_message(&ServerMessage::MethodReturned(ReturnValue::Service(ServiceId(3))))
    );
}

#[test]
fn server_message_round_trip() {
    let messages = vec![
        ServerMessage::DropServiceDone,
        ServerMessage::MethodReturned(ReturnValue::Data(vec![])),
        ServerMessage::MethodReturned(ReturnValue::Data(vec![0, 1, 255])),
        ServerMessage::MethodReturned(ReturnValue::Service(ServiceId(0))),
        ServerMessage::MethodReturned(ReturnValue::Service(ServiceId(u64::MAX))),
    ];
    for msg in messages {
        let encoded = encode_server_message(&msg);
        assert_eq!(Ok(msg), decode_server_message(&encoded));
    }
}

#[test]
fn server_message_malformed() {
    assert_eq!(Err(RpcError::Malformed), decode_server_message(&[]));
    // DropServiceDone must be exactly one byte.
    assert_eq!(Err(RpcError::Malformed), decode_server_message(&[0, 0]));
    // Service return with a truncated id.
    assert_eq!(Err(RpcError::Malformed), decode_server_message(&[1, 1, 3, 0]));
    // Unused return-value tag.
    assert_eq!(Err(RpcError::Malformed), decode_server_message(&[1, 2, 0]));
}

#[test]
fn value_exact_bytes() {
    assert_eq!(vec![0u8, 123, 0, 0, 0], encode_value(&Value::I32(123)));
    // Little-endian two's complement.
    assert_eq!(vec![0u8, 255, 255, 255, 255], encode_value(&Value::I32(-1)));
    assert_eq!(vec![0u8, 0, 1, 0, 0], encode_value(&Value::I32(256)));
    // Empty record: tag and a zero count.
    assert_eq!(vec![1u8, 0, 0, 0, 0, 0, 0, 0, 0], encode_value(&Value::Record(vec![])));
    // A record of one i32.
    assert_eq!(
        vec![1u8, 1, 0, 0, 0, 0, 0, 0, 0, 0, 42, 0, 0, 0],
        encode_value(&Value::Record(vec![Value::I32(42)]))
    );
}

#[test]
fn value_round_trip() {
    let values = vec![
        Value::I32(0),
        Value::I32(i32::MIN),
        Value::I32(i32::MAX),
        Value::Record(vec![]),
        // The `Foo { x: 80, y: Bar { z: 7 } }` shape: records nest.
        Value::Record(vec![Value::I32(80), Value::Record(vec![Value::I32(7)])]),
        Value::Record(vec![
            Value::Record(vec![Value::Record(vec![])]),
            Value::I32(-5),
            Value::I32(900),
        ]),
    ];
    for value in values {
        let encoded = encode_value(&value);
        assert_eq!(Ok(value), decode_value(&encoded));
    }
}

#[test]
fn value_malformed() {
    assert_eq!(Err(RpcError::Malformed), decode_value(&[]));
    // Unused tag.
    assert_eq!(Err(RpcError::Malformed), decode_value(&[2, 0, 0, 0, 0]));
    // Truncated integer.
    assert_eq!(Err(RpcError::Malformed), decode_value(&[0, 1, 2]));
    // Record that announces more fields than it holds.
    assert_eq!(
        Err(RpcError::Malformed),
        decode_value(&[1, 2, 0, 0, 0, 0, 0, 0, 0, 0, 42, 0, 0, 0])
    );
    // Trailing bytes after a whole value.
    assert_eq!(Err(RpcError::Malformed), decode_value(&[0, 1, 0, 0, 0, 9]));
}

#[test]
fn frame_exact_bytes_and_round_trip() {
    let payload = vec![10u8, 20, 30];
    let frame = encode_frame(&payload);
    assert_eq!(vec![0u8, 0, 0, 3, 10, 20, 30], frame);

    let (decoded, consumed) = try_deframe(&frame).expect("whole frame present");
    assert_eq!(payload, decoded);
    assert_eq!(7, consumed);
}

#[test]
fn frame_waits_for_whole_packet() {
    // Not even the length prefix yet.
    assert_eq!(None, try_deframe(&[0, 0, 0]));
    // Length known, payload incomplete.
    assert_eq!(None, try_deframe(&[0, 0, 0, 3, 10, 20]));
    // A whole packet followed by the start of the next one.
    let mut buf = encode_frame(&vec![1u8, 2]);
    buf.push(0);
    buf.push(0);
    let (payload, consumed) = try_deframe(&buf).expect("first frame is whole");
    assert_eq!(vec![1u8, 2], payload);
    assert_eq!(6, consumed);
}

#[test]
fn corrupted_frame_payload_is_rejected() {
    // A frame whose payload is random bytes is delivered whole, and the
    // message decoder rejects it, which terminates the connection.
    let garbage = vec![137u8, 4, 250, 17, 66];
    let frame = encode_frame(&garbage);
    let (payload, _) = try_deframe(&frame).expect("frame is whole");
    assert_eq!(Err(RpcError::Malformed), decode_client_message(&payload));
    assert_eq!(Err(RpcError::Malformed), decode_server_message(&payload));
}
