use bytes::BytesMut;
use serde_json::Value;
use serial_tether::codec::{CodecError, NdjsonCodec, MAX_LINE_BYTES};
use serial_tether::message::{Request, RpcId};

fn request_bytes(r: &Request) -> Vec<u8> {
    let mut obj = serde_json::Map::new();
    obj.insert("jsonrpc".to_string(), Value::from(r.jsonrpc.as_str()));
    match &r.id {
        RpcId::Number(n) => obj.insert("id".to_string(), Value::from(*n)),
        RpcId::Text(t) => obj.insert("id".to_string(), Value::from(t.as_str())),
    };
    obj.insert("method".to_string(), Value::from(r.method.as_str()));
    if let Some(p) = &r.params {
        obj.insert("params".to_string(), p.clone());
    }
    serde_json::to_vec(&Value::Object(obj)).unwrap()
}

#[test]
fn encode_decode_round() {
    let mut codec = NdjsonCodec::new();
    let mut buf = BytesMut::new();

    let req = Request::new(RpcId::Number(7), "ping", Value::Object(serde_json::Map::new()));
    codec.encode(&request_bytes(&req), &mut buf);

    let decoded = codec.decode(&mut buf).unwrap().unwrap();
    let v: Value = serde_json::from_slice(&decoded).unwrap();
    assert_eq!(v["method"], "ping");
    assert_eq!(v["id"], 7);
}

#[test]
fn split_across_chunks() {
    let mut codec = NdjsonCodec::new();
    let mut buf = BytesMut::new();
    let line = br#"{"jsonrpc":"2.0","method":"data","params":{"session_id":"s","seq":1,"data":"YQ=="}}"#;
    // first half
    buf.extend_from_slice(&line[..20]);
    assert!(codec.decode(&mut buf).unwrap().is_none());
    // rest + newline
    buf.extend_from_slice(&line[20..]);
    buf.extend_from_slice(b"\n");
    let m = codec.decode(&mut buf).unwrap().unwrap();
    assert_eq!(m, line);
    let v: Value = serde_json::from_slice(&m).unwrap();
    assert_eq!(v["method"], "data");
}

#[test]
fn skips_blank_lines() {
    let mut codec = NdjsonCodec::new();
    let mut buf = BytesMut::new();
    buf.extend_from_slice(b"\n\n");
    buf.extend_from_slice(br#"{"jsonrpc":"2.0","id":1,"method":"x"}"#);
    buf.extend_from_slice(b"\n");
    let m = codec.decode(&mut buf).unwrap().unwrap();
    let v: Value = serde_json::from_slice(&m).unwrap();
    assert_eq!(v["method"], "x");
}

#[test]
fn carriage_return_is_dropped_and_rest_stays() {
    let mut codec = NdjsonCodec::new();
    let mut buf = BytesMut::new();
    buf.extend_from_slice(b"\r\nabc\r\ndef\ngh");
    assert_eq!(codec.decode(&mut buf).unwrap().unwrap(), b"abc");
    assert_eq!(codec.decode(&mut buf).unwrap().unwrap(), b"def");
    assert!(codec.decode(&mut buf).unwrap().is_none());
    assert_eq!(&buf[..], b"gh");
}

#[test]
fn too_long_line_is_refused() {
    let mut codec = NdjsonCodec::new();
    let mut buf = BytesMut::new();
    buf.extend_from_slice(&vec![b'x'; MAX_LINE_BYTES + 1]);
    assert_eq!(codec.decode(&mut buf).unwrap_err(), CodecError::LineTooLong);
    assert_eq!(CodecError::LineTooLong.to_text(), "line exceeded 1048576 bytes");
}

#[test]
fn longest_line_is_accepted() {
    let mut codec = NdjsonCodec::new();
    let mut buf = BytesMut::new();
    let line = vec![b'x'; MAX_LINE_BYTES - 1];
    codec.encode(&line, &mut buf);
    assert_eq!(buf.len(), MAX_LINE_BYTES);
    assert_eq!(codec.decode(&mut buf).unwrap().unwrap(), line);
    let mut longer = BytesMut::new();
    let line = vec![b'x'; MAX_LINE_BYTES];
    codec.encode(&line, &mut longer);
    assert!(codec.decode(&mut longer).is_err());
}

#[test]
fn any_cut_gives_the_same_lines() {
    let bytes = b"{\"a\":1}\r\n\n\r\nx\ny\r\nrest";
    let decode_in = |pieces: &[&[u8]]| {
        let mut codec = NdjsonCodec::new();
        let mut buf = BytesMut::new();
        let mut lines = Vec::new();
        for p in pieces {
            buf.extend_from_slice(p);
            while let Some(line) = codec.decode(&mut buf).unwrap() {
                lines.push(line);
            }
        }
        (lines, buf.to_vec())
    };
    let whole = decode_in(&[bytes]);
    let expected = vec![b"{\"a\":1}".to_vec(), b"x".to_vec(), b"y".to_vec()];
    assert_eq!(whole, (expected, b"rest".to_vec()));
    for i in 0..=bytes.len() {
        for j in i..=bytes.len() {
            assert_eq!(decode_in(&[&bytes[..i], &bytes[i..j], &bytes[j..]]), whole);
        }
    }
}

#[test]
fn several_messages_come_out_in_order() {
    let mut codec = NdjsonCodec::new();
    let mut buf = BytesMut::new();
    for m in [&b"one"[..], b"two", b"three"] {
        codec.encode(m, &mut buf);
    }
    assert_eq!(&buf[..], b"one\ntwo\nthree\n");
    for m in [&b"one"[..], b"two", b"three"] {
        assert_eq!(codec.decode(&mut buf).unwrap().as_deref(), Some(m));
    }
    assert_eq!(codec.decode(&mut buf), Ok(None));
    assert!(buf.is_empty());
}

#[test]
fn json_text_frames_cleanly() {
    let mut codec = NdjsonCodec::new();
    let mut buf = BytesMut::new();
    let text = Value::from("a\r\n\"b\"\u{85}\r");
    let mut obj = serde_json::Map::new();
    obj.insert("k\n".to_string(), Value::Array(vec![text, Value::Null, Value::from(-7)]));
    let v = Value::Object(obj);
    assert_eq!(codec.encode_value(&v, &mut buf), Ok(()));
    assert_eq!(codec.encode_value(&Value::from("\n"), &mut buf), Ok(()));
    let line = codec.decode(&mut buf).unwrap().unwrap();
    assert_eq!(line, b"{\"k\\n\":[\"a\\r\\n\\\"b\\\"\xc2\x85\\r\",null,-7]}");
    assert_eq!(serde_json::from_slice::<Value>(&line).unwrap(), v);
    assert_eq!(codec.decode(&mut buf).unwrap().as_deref(), Some(&b"\"\\n\""[..]));
    assert!(buf.is_empty());
    assert_eq!(CodecError::Json("why".to_string()).to_text(), "json: why");
}
