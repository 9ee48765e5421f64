use serde_json::Value;
use serial_tether::error::{ErrorCode, ProtocolError, TimeoutData};
use serial_tether::message::{
    default_break_ms, default_connected, default_data_bits, default_flow_control, default_parity,
    default_preempt, default_reconnect_timeout_ms, default_serial_flow_control, default_shell,
    default_stop_bits, default_true, JsonRpcVersion, MessageFields, MessageKind, Notification,
    ReplaySpec, Request, Response, ResponsePayload, RpcId, PROTOCOL_VERSION,
};

fn fields_of(v: &Value) -> MessageFields {
    MessageFields {
        id: v.get("id").is_some(),
        method: v.get("method").is_some(),
        result: v.get("result").is_some(),
        error: v.get("error").is_some(),
    }
}

fn object(pairs: Vec<(&str, Value)>) -> Value {
    let mut m = serde_json::Map::new();
    for (k, v) in pairs {
        m.insert(k.to_string(), v);
    }
    Value::Object(m)
}

#[test]
fn request_roundtrip() {
    let r = Request::new(
        RpcId::Number(1),
        "hello",
        object(vec![("protocol_version", Value::from("1"))]),
    );
    let id = match r.id {
        RpcId::Number(n) => n,
        RpcId::Text(_) => panic!("expected a number"),
    };
    let s = object(vec![
        ("jsonrpc", Value::from(r.jsonrpc.as_str())),
        ("id", Value::from(id)),
        ("method", Value::from(r.method.as_str())),
        ("params", r.params.clone().unwrap()),
    ])
    .to_string();
    assert!(s.contains("\"jsonrpc\":\"2.0\""));
    let back: Value = serde_json::from_str(&s).unwrap();
    assert_eq!(fields_of(&back).kind(), Some(MessageKind::Request));
    assert!(JsonRpcVersion::parse(back["jsonrpc"].as_str().unwrap()).is_some());
    assert!(JsonRpcVersion::parse("1.0").is_none());
    assert_eq!(back["params"]["protocol_version"], PROTOCOL_VERSION);
}

#[test]
fn response_ok_roundtrip() {
    let r = Response::ok(RpcId::Number(1), object(vec![("x", Value::from(1))]));
    let result = match r.payload {
        ResponsePayload::Success { result } => result,
        ResponsePayload::Failure { .. } => panic!("expected ok"),
    };
    let s = object(vec![("jsonrpc", Value::from("2.0")), ("id", Value::from(1)), ("result", result)])
        .to_string();
    let parsed: Value = serde_json::from_str(&s).unwrap();
    assert_eq!(fields_of(&parsed).kind(), Some(MessageKind::ResponseOk));
    assert_eq!(parsed["result"]["x"], 1);
}

#[test]
fn response_err_roundtrip() {
    let r = Response::err(RpcId::Number(2), ProtocolError::new(ErrorCode::Timeout));
    let error = match r.payload {
        ResponsePayload::Failure { error } => error,
        ResponsePayload::Success { .. } => panic!("expected err"),
    };
    assert_eq!(error.code, -32001);
    let e = object(vec![
        ("code", Value::from(error.code)),
        ("message", Value::from(error.message.as_str())),
    ]);
    let s = object(vec![("jsonrpc", Value::from("2.0")), ("id", Value::from(2)), ("error", e)])
        .to_string();
    let parsed: Value = serde_json::from_str(&s).unwrap();
    assert_eq!(fields_of(&parsed).kind(), Some(MessageKind::ResponseErr));
    assert_eq!(parsed["error"]["code"], -32001);
}

#[test]
fn message_dispatch() {
    let line = r#"{"jsonrpc":"2.0","method":"data","params":{"session_id":"x","seq":1,"data":"YWI="}}"#;
    let m: Value = serde_json::from_str(line).unwrap();
    assert_eq!(fields_of(&m).kind(), Some(MessageKind::Notification));
    assert_eq!(m["method"], "data");
    let n = Notification::new("data", m["params"].clone());
    assert_eq!(n.method, "data");
    assert_eq!(n.params.unwrap()["seq"], 1);
}

#[test]
fn object_that_is_no_message() {
    let f = MessageFields { id: true, method: false, result: false, error: false };
    assert_eq!(f.kind(), None);
    let f = MessageFields { id: true, method: true, result: true, error: true };
    assert_eq!(f.kind(), Some(MessageKind::Request));
    let f = MessageFields { id: true, method: false, result: true, error: true };
    assert_eq!(f.kind(), Some(MessageKind::ResponseOk));
}

#[test]
fn error_numbers() {
    let expected: Vec<(ErrorCode, i32, &str)> = vec![
        (ErrorCode::ParseError, -32700, "parse error"),
        (ErrorCode::InvalidRequest, -32600, "invalid request"),
        (ErrorCode::MethodNotFound, -32601, "method not found"),
        (ErrorCode::InvalidParams, -32602, "invalid params"),
        (ErrorCode::InternalError, -32603, "internal error"),
        (ErrorCode::Timeout, -32001, "timeout"),
        (ErrorCode::SessionNotAttached, -32002, "session not attached"),
        (ErrorCode::ModeViolation, -32003, "mode violation"),
        (ErrorCode::LockContention, -32004, "lock contention"),
        (ErrorCode::DeviceDisconnected, -32005, "device disconnected"),
        (ErrorCode::BufferOverflow, -32006, "buffer overflow"),
        (ErrorCode::UnsupportedSerialOp, -32007, "unsupported serial operation"),
        (ErrorCode::InvalidSerialSetting, -32008, "invalid serial setting"),
        (ErrorCode::DeviceNotFound, -32009, "device not found"),
        (ErrorCode::UnsupportedProtocol, -32010, "unsupported protocol"),
        (ErrorCode::NotInitialized, -32011, "not initialized"),
        (ErrorCode::SessionNotFound, -32012, "session not found"),
        (ErrorCode::ModeConflict, -32013, "mode conflict"),
        (ErrorCode::Unauthorized, -32014, "unauthorized"),
        (ErrorCode::AmbiguousDevice, -32015, "ambiguous device"),
        (ErrorCode::Cancelled, -32800, "cancelled"),
    ];
    for (code, number, text) in expected {
        assert_eq!(code.as_i32(), number);
        assert_eq!(code.message(), text);
    }
}

#[test]
fn error_object() {
    let e = ProtocolError::new(ErrorCode::Timeout).with_message("too late").with_data(TimeoutData {
        buffered: "YQ==".to_string(),
        buffered_seq_range: [3, 4],
    });
    assert_eq!(e.to_text(), "too late (-32001)");
    assert_eq!(e.data.unwrap().buffered_seq_range, [3, 4]);
}

#[test]
fn wire_defaults() {
    assert_eq!(default_data_bits(), 8);
    assert_eq!(default_stop_bits(), 1);
    assert_eq!(default_parity(), "none");
    assert_eq!(default_serial_flow_control(), "none");
    assert_eq!(default_shell(), "posix");
    assert!(default_connected());
    assert!(default_true());
    assert_eq!(default_reconnect_timeout_ms(), 5000);
    assert_eq!(default_break_ms(), 250);
    assert_eq!(default_flow_control(), "drop_oldest");
    assert_eq!(default_preempt(), "queue");
    match ReplaySpec::default() {
        ReplaySpec::Named(s) => assert_eq!(s, "now"),
        ReplaySpec::FromSeq { .. } => panic!("expected a name"),
    }
}
