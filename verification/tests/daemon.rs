use serial_tether::buffer::RingBuffer;
use serial_tether::conn::{
    device_notify, dispatch, due_for_session, end_connection, fan_out, is_blocking_method,
    parse_method, ConnState, Method,
};
use serial_tether::control::{
    connect_device, connect_finished, default_reconnect_params, disconnect_device,
    disconnect_finished, line_finished, list_devices, list_ports, read_modem_status, reconnect,
    reconnect_result, send_break, set_device, set_device_finished, set_dtr, set_rts, status,
    target, FoundKind, FoundPort, ReconnectWait, UsbPort,
};
use serial_tether::error::ProtocolError;
use serial_tether::expect::{ExpectStep, Interrupt};
use serial_tether::handlers::{
    attach, detach, expect, expect_finished, hello, lock, run, run_finished, run_interrupt,
    run_watch, send, send_finished, unlock, writer_error_to_proto, LockStart, RunPlan, RunStart,
};
use serial_tether::message::{
    AttachParams, ClientInfo, DetachParams, DeviceTarget, ExpectParams, HelloParams, LockParams,
    ReconnectParams, ReplaySpec, RunParams, SendBreakParams, SendParams, SetDeviceParams,
    SetLineParams, UnlockParams, UntilSpec,
};
use serial_tether::render::notified_bytes;
use serial_tether::serial::{
    Backend, ControlMsg, DataBits, FaultKind, FlowControl, IoEvent, IoFault, IoStep, Parity,
    SerialConfig, StopBits, WaitEvent,
};
use serial_tether::session::FlowControl as ReaderPolicy;
use serial_tether::session::{SessionManager, SessionMode};
use serial_tether::startup::{device_config, initial_state, parse_defaults, parse_device_spec};
use serial_tether::state::{
    ConsolePersonality, DaemonState, Device, DeviceEvent, DeviceEventKind,
};

fn device(id: &str, path: &str) -> Device {
    let cfg = SerialConfig {
        path: path.to_string(),
        baud: 115200,
        data_bits: DataBits::Eight,
        parity: Parity::Disabled,
        stop_bits: StopBits::One,
        flow_control: FlowControl::Disabled,
    };
    let mut d = Device::new(id.to_string(), 64, cfg, ConsolePersonality::default());
    d.owner.opened(&mut d.state, Backend::Fd, 0);
    d
}

fn daemon(ids: &[&str]) -> DaemonState {
    let devices = ids.iter().map(|id| device(id, &format!("/dev/{id}"))).collect();
    initial_state(devices, Some("secret".to_string()))
}

fn hello_params(version: &str, token: Option<&str>) -> HelloParams {
    HelloParams {
        protocol_version: version.to_string(),
        client: ClientInfo {
            name: "t".to_string(),
            version: "0".to_string(),
            kind: "agent".to_string(),
        },
        auth_token: token.map(|t| t.to_string()),
    }
}

fn greeted(state: &DaemonState) -> ConnState {
    let mut conn = ConnState::new(false);
    hello(state, &mut conn, &hello_params("1", None)).unwrap();
    conn
}

fn attach_params(device_id: Option<&str>) -> AttachParams {
    AttachParams {
        session_id: None,
        mode: "rw".to_string(),
        replay: ReplaySpec::default(),
        label: Some("test".to_string()),
        flow_control: "drop_oldest".to_string(),
        device_id: device_id.map(|d| d.to_string()),
    }
}

fn attached(state: &mut DaemonState) -> (ConnState, String) {
    let mut conn = greeted(state);
    let a = attach(state, &mut conn, &attach_params(None), 0).unwrap();
    (conn, a.session_id)
}

fn send_text(sid: &str, text: &str) -> SendParams {
    SendParams {
        session_id: sid.to_string(),
        data: None,
        data_text: Some(text.to_string()),
        eat_echo: false,
    }
}

fn lock_params(sid: &str, preempt: &str) -> LockParams {
    LockParams { session_id: sid.to_string(), device_id: None, preempt: preempt.to_string() }
}

fn unlock_params(sid: &str) -> UnlockParams {
    UnlockParams { session_id: sid.to_string(), device_id: None }
}

fn run_params(sid: &str, preempt: &str) -> RunParams {
    RunParams {
        session_id: sid.to_string(),
        data: None,
        data_text: Some("version\n".to_string()),
        until: UntilSpec { pattern: "# $".to_string(), regex: true, strip_ansi: false },
        timeout_ms: Some(1000),
        preempt: preempt.to_string(),
        strip_echo: true,
        max_bytes: None,
        max_output_bytes: None,
    }
}

fn expect_params(sid: &str, pattern: &str) -> ExpectParams {
    ExpectParams {
        session_id: sid.to_string(),
        pattern: pattern.to_string(),
        regex: true,
        timeout_ms: Some(100),
        strip_ansi: false,
        strip_echo: None,
        from_seq: None,
        max_bytes: None,
        max_output_bytes: None,
    }
}

// ---------- Greeting ----------

#[test]
fn hello_checks_version_and_token() {
    let state = daemon(&["a"]);
    let mut conn = ConnState::new(true);
    let e = hello(&state, &mut conn, &hello_params("2", Some("secret"))).unwrap_err();
    assert_eq!(e.code, -32010);
    assert_eq!(e.message, "server supports 1, got 2");
    let e = hello(&state, &mut conn, &hello_params("1", None)).unwrap_err();
    assert_eq!(e.code, -32014);
    assert_eq!(e.message, "auth token missing or incorrect");
    let e = hello(&state, &mut conn, &hello_params("1", Some("Secret"))).unwrap_err();
    assert_eq!(e.code, -32014);
    assert!(!conn.is_initialized());
    let h = hello(&state, &mut conn, &hello_params("1", Some("secret"))).unwrap();
    assert!(conn.is_initialized());
    assert_eq!(h.protocol_version, "1");
    assert_eq!(h.server_version, "0.11.0");
    assert_eq!(h.device.id.as_deref(), Some("a"));
    assert_eq!(h.device.path, "/dev/a");
    assert_eq!(h.device.shell, "posix");
    assert_eq!(h.buffer.capacity_bytes, 64);
}

#[test]
fn nothing_is_served_before_hello() {
    let state = daemon(&["a"]);
    let mut conn = ConnState::new(false);
    for m in ["attach", "status", "set_device", "list_ports", "send", "reconnect"] {
        assert_eq!(dispatch(&conn, m).unwrap_err().code, -32011);
    }
    assert_eq!(dispatch(&conn, "hello").unwrap(), Method::Hello);
    let e = dispatch(&conn, "cancel").unwrap_err();
    assert_eq!(e.code, -32601);
    assert_eq!(e.message, "method not found: cancel");
    hello(&state, &mut conn, &hello_params("1", None)).unwrap();
    assert_eq!(dispatch(&conn, "attach").unwrap(), Method::Attach);
}

#[test]
fn every_method_has_its_name() {
    let names = [
        "hello", "attach", "detach", "send", "expect", "run", "lock", "unlock", "status",
        "list_ports", "list_devices", "set_device", "reconnect", "send_break", "set_dtr",
        "set_rts", "read_modem_status", "disconnect_device", "connect_device",
    ];
    for n in names {
        assert_eq!(parse_method(n).unwrap().as_str(), n);
    }
    assert!(parse_method("Hello").is_none());
    let blocking: Vec<&str> = names.iter().copied().filter(|n| is_blocking_method(n)).collect();
    assert_eq!(blocking, ["expect", "run", "lock", "reconnect"]);
}

// ---------- Sessions ----------

#[test]
fn attach_places_the_cursor() {
    let mut state = daemon(&["a"]);
    state.devices[0].buffer.push(&vec![b'x'; 100]);
    let mut conn = greeted(&state);
    let mut p = attach_params(None);
    assert_eq!(attach(&mut state, &mut conn, &p, 0).unwrap().cursor_seq, 100);
    p.replay = ReplaySpec::Named("start".to_string());
    assert_eq!(attach(&mut state, &mut conn, &p, 0).unwrap().cursor_seq, 36);
    p.replay = ReplaySpec::FromSeq { seq: 7 };
    let a = attach(&mut state, &mut conn, &p, 0).unwrap();
    assert_eq!(a.cursor_seq, 7);
    assert!(!a.restored);
    assert_eq!(a.session_id.len(), 36);
    assert!(conn.has_session(&a.session_id));
    assert_eq!(conn.session_ids().len(), 3);
}

#[test]
fn attach_refusals() {
    let mut state = daemon(&["a", "b"]);
    let mut fresh = ConnState::new(false);
    let p = attach_params(Some("a"));
    assert_eq!(attach(&mut state, &mut fresh, &p, 0).unwrap_err().code, -32011);
    let mut conn = greeted(&state);
    let mut p = attach_params(None);
    let e = attach(&mut state, &mut conn, &p, 0).unwrap_err();
    assert_eq!(e.code, -32015);
    assert_eq!(e.message, "daemon serves 2 devices; pass device_id to select one");
    p.device_id = Some("c".to_string());
    let e = attach(&mut state, &mut conn, &p, 0).unwrap_err();
    assert_eq!(e.code, -32009);
    assert_eq!(e.message, "device \"c\" not managed by this daemon");
    p.device_id = Some("b".to_string());
    p.replay = ReplaySpec::Named("later".to_string());
    assert_eq!(attach(&mut state, &mut conn, &p, 0).unwrap_err().message, "bad replay: later");
    p.replay = ReplaySpec::default();
    p.session_id = Some("x".to_string());
    assert_eq!(attach(&mut state, &mut conn, &p, 0).unwrap_err().code, -32012);
    p.flow_control = "never".to_string();
    let e = attach(&mut state, &mut conn, &p, 0).unwrap_err();
    assert_eq!(e.message, "bad flow_control: never");
    p.mode = "w".to_string();
    let e = attach(&mut state, &mut conn, &p, 0).unwrap_err();
    assert_eq!((e.code, e.message.as_str()), (-32602, "bad mode: w"));
}

#[test]
fn session_manager_keeps_sessions_by_id() {
    let mut m = SessionManager::new();
    let id = m.create("dev", SessionMode::Ro, ReaderPolicy::Disconnect, None, 9, 3);
    let s = m.get(&id).unwrap();
    assert_eq!(s.device_id, "dev");
    assert_eq!((s.consumer_cursor, s.notify_cursor, s.created_at), (9, 9, 3));
    m.create_as("x", "other", SessionMode::Rw, ReaderPolicy::DropOldest, None, 1, 0);
    m.set_notify_cursor("x", 5);
    assert_eq!(m.get("x").unwrap().notify_cursor, 5);
    assert_eq!(m.get("x").unwrap().consumer_cursor, 1);
    let rows = m.snapshot(20);
    assert_eq!(rows.len(), 2);
    assert_eq!((rows[0].mode.as_str(), rows[0].lag_bytes), ("ro", 11));
    assert_eq!((rows[1].cursor_seq, rows[1].lag_bytes), (1, 15));
    assert_eq!(m.snapshot(2)[1].lag_bytes, 0);
    assert_eq!(m.snapshot_for_device(20, "other").len(), 1);
    assert!(m.remove("x").is_some());
    assert!(m.remove("x").is_none());
    assert!(m.get(&id).is_some());
}

#[test]
fn modes_and_policies() {
    assert_eq!(SessionMode::parse("rw"), Some(SessionMode::Rw));
    assert_eq!(SessionMode::parse("ro"), Some(SessionMode::Ro));
    assert_eq!(SessionMode::parse("RW"), None);
    assert_eq!(SessionMode::Ro.as_str(), "ro");
    assert_eq!(ReaderPolicy::parse("drop_oldest"), Some(ReaderPolicy::DropOldest));
    assert_eq!(ReaderPolicy::parse("disconnect"), Some(ReaderPolicy::Disconnect));
    assert_eq!(ReaderPolicy::parse(""), None);
}

#[test]
fn detach_frees_the_lock() {
    let mut state = daemon(&["a"]);
    let (mut conn, sid) = attached(&mut state);
    assert_eq!(lock(&mut state, &conn, &lock_params(&sid, "fail")).unwrap(), LockStart::Granted(None));
    let p = DetachParams { session_id: sid.clone() };
    assert_eq!(detach(&mut state, &mut conn, &p).unwrap(), Some(0));
    assert!(state.devices[0].lock.holder.is_none());
    assert!(state.sessions.get(&sid).is_none());
    assert!(!conn.has_session(&sid));
    assert_eq!(detach(&mut state, &mut conn, &p).unwrap_err().code, -32002);
}

#[test]
fn attach_then_detach_leaves_no_trace() {
    let mut state = daemon(&["a"]);
    let (mut conn, first) = attached(&mut state);
    let second = attach(&mut state, &mut conn, &attach_params(None), 1).unwrap().session_id;
    lock(&mut state, &conn, &lock_params(&first, "fail")).unwrap();
    let ids = |s: &DaemonState| -> Vec<String> {
        s.sessions.snapshot(0).into_iter().map(|x| x.id).collect()
    };
    let before = (ids(&state), conn.session_ids(), state.devices[0].lock.holder_id());
    let third = attach(&mut state, &mut conn, &attach_params(None), 2).unwrap().session_id;
    assert_eq!(ids(&state), vec![first.clone(), second.clone(), third.clone()]);
    let p = DetachParams { session_id: third };
    assert_eq!(detach(&mut state, &mut conn, &p).unwrap(), None);
    assert_eq!((ids(&state), conn.session_ids(), state.devices[0].lock.holder_id()), before);
}

// ---------- send ----------

#[test]
fn send_collects_bytes() {
    let mut state = daemon(&["a"]);
    let (conn, sid) = attached(&mut state);
    let plan = send(&state, &conn, &send_text(&sid, "hi\n")).unwrap();
    assert_eq!((plan.device, plan.bytes.as_slice()), (0, &b"hi\n"[..]));
    let mut p = send_text(&sid, "ignored");
    p.data = Some("dmVyc2lvbgo=".to_string());
    assert_eq!(send(&state, &conn, &p).unwrap().bytes, b"version\n");
    p.data = Some("!".to_string());
    let e = send(&state, &conn, &p).unwrap_err();
    assert_eq!(e.code, -32602);
    assert!(e.message.starts_with("base64: Invalid "));
    p.data = None;
    p.data_text = None;
    let e = send(&state, &conn, &p).unwrap_err();
    assert_eq!(e.message, "either data or data_text required");
}

#[test]
fn send_needs_a_writable_session() {
    let mut state = daemon(&["a"]);
    let mut conn = greeted(&state);
    let mut p = attach_params(None);
    p.mode = "ro".to_string();
    let sid = attach(&mut state, &mut conn, &p, 0).unwrap().session_id;
    assert_eq!(send(&state, &conn, &send_text(&sid, "x")).unwrap_err().code, -32003);
    assert_eq!(send(&state, &conn, &send_text("nope", "x")).unwrap_err().code, -32002);
    state.sessions.remove(&sid);
    assert_eq!(send(&state, &conn, &send_text(&sid, "x")).unwrap_err().code, -32012);
}

#[test]
fn eat_echo_skips_the_echo() {
    let mut state = daemon(&["a"]);
    let (_conn, sid) = attached(&mut state);
    let r = send_finished(&mut state, &sid, true, 8, 100);
    assert_eq!((r.bytes_written, r.sent_at_seq), (8, 100));
    assert_eq!(state.sessions.get(&sid).unwrap().consumer_cursor, 108);
    assert_eq!(state.sessions.get(&sid).unwrap().notify_cursor, 0);
    send_finished(&mut state, &sid, false, 8, 200);
    assert_eq!(state.sessions.get(&sid).unwrap().consumer_cursor, 108);
}

#[test]
fn port_failures_map_to_their_codes() {
    let gone = IoFault::new(FaultKind::NotConnected, "device disconnected");
    let odd = IoFault::new(FaultKind::Other, "boom");
    let cannot = IoFault::new(FaultKind::Unsupported, "no lines");
    assert_eq!(writer_error_to_proto(&gone).code, -32005);
    assert_eq!(writer_error_to_proto(&odd).code, -32603);
    assert_eq!(writer_error_to_proto(&odd).message, "boom");
    assert_eq!(line_finished(&Err(cannot)).unwrap_err().code, -32007);
    assert_eq!(line_finished(&Err(gone)).unwrap_err().code, -32005);
    assert_eq!(line_finished(&Err(odd)).unwrap_err().code, -32603);
    assert!(line_finished(&Ok(())).unwrap().ok);
}

// ---------- expect and run ----------

#[test]
fn expect_moves_the_cursor_past_the_match() {
    let mut state = daemon(&["a"]);
    let (conn, sid) = attached(&mut state);
    state.devices[0].buffer.push(b"one two ");
    let (d, mut watch) = expect(&state, &conn, &expect_params(&sid, "one ")).unwrap();
    let step = watch.step(&state.devices[d].buffer, 0, Interrupt::Nothing);
    expect_finished(&mut state, &sid, &step, watch.cursor());
    assert_eq!(state.sessions.get(&sid).unwrap().consumer_cursor, 4);
    // Notifications are not affected.
    assert_eq!(state.sessions.get(&sid).unwrap().notify_cursor, 0);
    // The next wait starts there and, timing out, takes all there is.
    let (d, mut watch) = expect(&state, &conn, &expect_params(&sid, "one ")).unwrap();
    let step = watch.step(&state.devices[d].buffer, 100, Interrupt::Nothing);
    assert!(matches!(step, ExpectStep::Failed(_)));
    expect_finished(&mut state, &sid, &step, watch.cursor());
    assert_eq!(state.sessions.get(&sid).unwrap().consumer_cursor, 8);
}

#[test]
fn expect_reads_with_a_read_only_session() {
    let mut state = daemon(&["a"]);
    let mut conn = greeted(&state);
    let mut p = attach_params(None);
    p.mode = "ro".to_string();
    let sid = attach(&mut state, &mut conn, &p, 0).unwrap().session_id;
    assert!(expect(&state, &conn, &expect_params(&sid, "x")).is_ok());
    assert_eq!(expect(&state, &conn, &expect_params(&sid, "(")).unwrap_err().code, -32602);
    assert_eq!(expect(&state, &conn, &expect_params("nope", "(")).unwrap_err().code, -32002);
}

fn granted(r: Result<RunStart, ProtocolError>) -> RunPlan {
    match r.unwrap() {
        RunStart::Granted(plan) => plan,
        other => panic!("unexpected {other:?}"),
    }
}

#[test]
fn run_is_one_transaction() {
    let mut state = daemon(&["a"]);
    let (conn, sid) = attached(&mut state);
    state.devices[0].buffer.push(b"# stale ");
    let p = run_params(&sid, "queue");
    let plan = granted(run(&mut state, &conn, &p));
    assert_eq!(plan.bytes, b"version\n");
    assert!(state.devices[0].lock.is_held_by(&sid));
    assert!(!state.devices[0].lock.exclusively_held());
    let (sent_at, _) = state.devices[0].buffer.snapshot_seqs();
    state.devices[0].buffer.push(b"version\r\nv1\r\n# ");
    let mut watch = run_watch(&p, &plan.bytes, sent_at).unwrap();
    let interrupt = run_interrupt(&sid, &Vec::new(), false);
    let end = match watch.step(&state.devices[0].buffer, 5, interrupt) {
        ExpectStep::Matched(m) => {
            assert_eq!(m.before, "djENCg==");
            m.end_seq
        }
        other => panic!("unexpected {other:?}"),
    };
    assert!(run_finished(&mut state, 0, &sid, Some(end)));
    assert!(state.devices[0].lock.holder.is_none());
    assert_eq!(state.sessions.get(&sid).unwrap().consumer_cursor, 23);
}

#[test]
fn run_contention() {
    let mut state = daemon(&["a"]);
    let (c1, s1) = attached(&mut state);
    let (c2, s2) = attached(&mut state);
    assert_eq!(granted(run(&mut state, &c1, &run_params(&s1, "force"))).seized_from, None);
    assert!(matches!(run(&mut state, &c2, &run_params(&s2, "queue")).unwrap(), RunStart::Wait(0)));
    assert_eq!(run(&mut state, &c2, &run_params(&s2, "fail")).unwrap_err().code, -32004);
    assert_eq!(run_interrupt(&s1, &Vec::new(), false), Interrupt::Nothing);
    assert_eq!(run_interrupt(&s1, &Vec::new(), true), Interrupt::DeviceDropped);
    let plan = granted(run(&mut state, &c2, &run_params(&s2, "force")));
    assert_eq!(plan.seized_from.as_deref(), Some(s1.as_str()));
    // The former holder's transaction is told, and its end releases nothing.
    let seized = vec![plan.seized_from.unwrap()];
    assert_eq!(run_interrupt(&s1, &seized, false), Interrupt::LockSeized);
    assert_eq!(run_interrupt(&s2, &seized, false), Interrupt::Nothing);
    assert!(!run_finished(&mut state, 0, &s1, None));
    assert!(state.devices[0].lock.is_held_by(&s2));
    // An explicit lock can be taken over too, and can take over.
    assert_eq!(
        lock(&mut state, &c1, &lock_params(&s1, "force")).unwrap(),
        LockStart::Granted(Some(s2))
    );
}

#[test]
fn overlapping_runs_of_one_session_end_by_themselves() {
    let mut state = daemon(&["a"]);
    let (c1, s1) = attached(&mut state);
    let (c2, s2) = attached(&mut state);
    let mut seized = Vec::new();
    let first = run_params(&s1, "queue");
    seized.extend(granted(run(&mut state, &c1, &first)).seized_from);
    let plan = granted(run(&mut state, &c1, &first));
    seized.extend(plan.seized_from);
    // The first ends and frees the lock; the second goes on.
    assert!(run_finished(&mut state, 0, &s1, None));
    assert!(state.devices[0].lock.holder.is_none());
    assert_eq!(run_interrupt(&s1, &seized, false), Interrupt::Nothing);
    // It goes on as well when another session then takes the free lock.
    seized.extend(granted(run(&mut state, &c2, &run_params(&s2, "force"))).seized_from);
    assert_eq!(run_interrupt(&s1, &seized, false), Interrupt::Nothing);
    let mut watch = run_watch(&first, &plan.bytes, 0).unwrap();
    state.devices[0].buffer.push(b"version\r\nv1\r\n# ");
    let interrupt = run_interrupt(&s1, &seized, false);
    let step = watch.step(&state.devices[0].buffer, 5, interrupt);
    assert!(matches!(step, ExpectStep::Matched(_)));
    // Its end leaves the other session's hold alone.
    assert!(!run_finished(&mut state, 0, &s1, None));
    assert!(state.devices[0].lock.is_held_by(&s2));
}

// ---------- lock ----------

#[test]
fn exclusive_lock_gates_send_from_other_sessions() {
    let mut state = daemon(&["a"]);
    let (ca, a) = attached(&mut state);
    let (cb, b) = attached(&mut state);
    let locked = lock(&mut state, &ca, &lock_params(&a, "queue")).unwrap();
    assert_eq!(locked, LockStart::Granted(None));
    let e = send(&state, &cb, &send_text(&b, "x")).unwrap_err();
    assert_eq!(e.code, -32004);
    assert!(send(&state, &ca, &send_text(&a, "x")).is_ok());
    assert_eq!(unlock(&mut state, &ca, &unlock_params(&a)).unwrap(), Some(0));
    assert!(send(&state, &cb, &send_text(&b, "x")).is_ok());
}

#[test]
fn unlock_by_non_holder_is_rejected() {
    let mut state = daemon(&["a"]);
    let (ca, a) = attached(&mut state);
    let (cb, b) = attached(&mut state);
    lock(&mut state, &ca, &lock_params(&a, "queue")).unwrap();
    let e = unlock(&mut state, &cb, &unlock_params(&b)).unwrap_err();
    assert_eq!(e.code, -32004);
    assert!(state.devices[0].lock.is_held_by(&a));
    assert_eq!(unlock(&mut state, &ca, &unlock_params(&a)).unwrap(), Some(0));
    // Idempotent once free.
    assert_eq!(unlock(&mut state, &ca, &unlock_params(&a)).unwrap(), None);
}

#[test]
fn connection_teardown_releases_the_lock() {
    let mut state = daemon(&["a"]);
    let (ca, a) = attached(&mut state);
    let (cb, b) = attached(&mut state);
    lock(&mut state, &ca, &lock_params(&a, "queue")).unwrap();
    assert_eq!(lock(&mut state, &cb, &lock_params(&b, "queue")).unwrap(), LockStart::Wait(0));
    assert_eq!(end_connection(&mut state, &ca), vec![0]);
    assert!(state.sessions.get(&a).is_none());
    assert!(state.sessions.get(&b).is_some());
    assert!(send(&state, &cb, &send_text(&b, "x")).is_ok());
}

#[test]
fn lock_checks_the_named_device() {
    let mut state = daemon(&["a", "b"]);
    let mut conn = greeted(&state);
    let sid = attach(&mut state, &mut conn, &attach_params(Some("b")), 0).unwrap().session_id;
    let mut p = lock_params(&sid, "queue");
    p.device_id = Some("a".to_string());
    let e = lock(&mut state, &conn, &p).unwrap_err();
    assert_eq!(e.code, -32009);
    assert_eq!(e.message, "session bound to device \"b\", not \"a\"");
    p.device_id = Some("b".to_string());
    assert_eq!(lock(&mut state, &conn, &p).unwrap(), LockStart::Granted(None));
    assert!(state.devices[1].lock.is_held_by(&sid));
    assert!(state.devices[0].lock.holder.is_none());
    let other = RunParams { preempt: "fail".to_string(), ..run_params("x", "fail") };
    assert_eq!(run(&mut state, &conn, &other).unwrap_err().code, -32002);
}

// ---------- Notifications ----------

#[test]
fn fan_out_delivers_once_and_in_order() {
    let mut state = daemon(&["a", "b"]);
    let mut conn = greeted(&state);
    let sid = attach(&mut state, &mut conn, &attach_params(Some("a")), 0).unwrap().session_id;
    state.devices[0].buffer.push(b"hi");
    // Bound to another device: nothing.
    assert!(fan_out(&mut state, &sid, 1).is_none());
    assert!(fan_out(&mut state, "nobody", 0).is_none());
    let f = fan_out(&mut state, &sid, 0).unwrap();
    let d = f.data.unwrap();
    assert!(f.lag.is_none());
    assert_eq!((d.seq, d.data.as_str()), (0, "aGk="));
    assert_eq!(d.device_id.as_deref(), Some("a"));
    assert_eq!(d.session_id, sid);
    // Nothing new.
    let f = fan_out(&mut state, &sid, 0).unwrap();
    assert!(f.data.is_none() && f.lag.is_none());
    state.devices[0].buffer.push(b"!");
    let d = fan_out(&mut state, &sid, 0).unwrap().data.unwrap();
    assert_eq!((d.seq, d.data.as_str()), (2, "IQ=="));
    let (to, data) = (Some(d.session_id), Some(d.data));
    assert_eq!(notified_bytes(&to, &data, &sid).as_deref(), Some(&b"!"[..]));
    assert_eq!(notified_bytes(&to, &data, "another"), None);
    assert_eq!(state.sessions.get(&sid).unwrap().consumer_cursor, 0);
}

#[test]
fn lag_is_told_to_drop_oldest_sessions_only() {
    let mut state = daemon(&["a"]);
    let mut conn = greeted(&state);
    let told = attach(&mut state, &mut conn, &attach_params(None), 0).unwrap().session_id;
    let mut p = attach_params(None);
    p.flow_control = "disconnect".to_string();
    let silent = attach(&mut state, &mut conn, &p, 0).unwrap().session_id;
    state.devices[0].buffer.push(&vec![b'x'; 70]);
    let f = fan_out(&mut state, &told, 0).unwrap();
    let l = f.lag.unwrap();
    assert_eq!((l.dropped_bytes, l.dropped_range, l.resume_seq), (6, [0, 6], 6));
    assert_eq!(f.data.unwrap().seq, 6);
    let due = due_for_session(&state.devices[0], state.sessions.get(&silent).unwrap());
    assert!(due.lag.is_none());
    assert_eq!((due.seq, due.chunk.len(), due.next_cursor), (6, 64, 70));
}

#[test]
fn device_events_are_notified() {
    let e = DeviceEvent {
        kind: DeviceEventKind::Disconnected,
        detail: Some("EOF".to_string()),
    };
    let n = device_notify(&e, "a");
    assert_eq!(n.kind, "disconnected");
    assert_eq!(n.detail.as_deref(), Some("EOF"));
    assert_eq!(n.device_id.as_deref(), Some("a"));
    assert_eq!(DeviceEventKind::Reconnected.as_str(), "reconnected");
    assert_eq!(DeviceEventKind::ConfigChanged.as_str(), "config_changed");
}

// ---------- Devices ----------

#[test]
fn single_device_status_returns_device_info() {
    let mut state = daemon(&["pty0"]);
    let (conn, sid) = attached(&mut state);
    lock(&mut state, &conn, &lock_params(&sid, "queue")).unwrap();
    state.devices[0].buffer.push(b"abc");
    let r = status(&state);
    assert_eq!(r.device.path, "/dev/pty0");
    assert!(r.device.connected);
    assert_eq!(r.default_device.as_deref(), Some("pty0"));
    assert_eq!(r.devices.len(), 1);
    assert_eq!(r.devices[0].id, "pty0");
    assert_eq!(r.devices[0].buffer.head_seq, 3);
    assert_eq!(r.lock.holder_session_id.as_deref(), Some(sid.as_str()));
    assert_eq!(r.sessions.len(), 1);
    assert_eq!(r.sessions[0].lag_bytes, 3);
    assert_eq!(r.sessions[0].label.as_deref(), Some("test"));
}

#[test]
fn status_tops_with_the_default_device() {
    let mut state = daemon(&["a", "b"]);
    let mut conn = greeted(&state);
    let a = attach(&mut state, &mut conn, &attach_params(Some("a")), 0).unwrap().session_id;
    let b = attach(&mut state, &mut conn, &attach_params(Some("b")), 0).unwrap().session_id;
    state.devices[0].buffer.push(b"abc");
    state.devices[1].buffer.push(b"defgh");
    let r = status(&state);
    assert_eq!(r.default_device.as_deref(), Some("a"));
    assert_eq!(r.sessions.len(), 1);
    assert_eq!((r.sessions[0].id.as_str(), r.sessions[0].lag_bytes), (a.as_str(), 3));
    let row = &r.devices[1].sessions;
    assert_eq!(row.len(), 1);
    assert_eq!((row[0].id.as_str(), row[0].lag_bytes), (b.as_str(), 5));
}

#[test]
fn multi_device_list_devices_returns_both() {
    let defaults = parse_defaults(115200, 8, "none", 1, "none").unwrap();
    let mut devices = Vec::new();
    for spec in ["board0=/dev/pts/1", "board1=/dev/pts/2,baud=9600"] {
        let s = parse_device_spec(spec).unwrap();
        let cfg = device_config(&s, &defaults).unwrap();
        devices.push(Device::new(s.id.clone(), 64, cfg, s.console.duplicate()));
    }
    let state = initial_state(devices, None);
    let l = list_devices(&state);
    assert_eq!(l.default_device, "board0");
    let ids: Vec<&str> = l.devices.iter().map(|d| d.id.as_str()).collect();
    assert_eq!(ids, ["board0", "board1"]);
    assert_eq!(l.devices[0].baud, 115200);
    assert_eq!(l.devices[1].baud, 9600);
}

#[test]
fn listing_puts_the_default_first() {
    let state = daemon(&["m", "z", "b", "a", "ab"]);
    let ids: Vec<String> = list_devices(&state).devices.into_iter().map(|d| d.id).collect();
    assert_eq!(ids, ["m", "a", "ab", "b", "z"]);
}

#[test]
fn multi_device_ambiguous_returns_32015() {
    let state = daemon(&["board0", "board1"]);
    assert_eq!(target(&state, &None).unwrap_err().code, -32015);
    assert_eq!(target(&state, &Some("board0".to_string())).unwrap(), 0);
    assert_eq!(target(&state, &Some("board1".to_string())).unwrap(), 1);
    assert_eq!(target(&daemon(&["x"]), &None).unwrap(), 0);
}

#[test]
fn disconnect_connect_cycle_toggles_explicit_flag() {
    let mut state = daemon(&["a"]);
    let row = &list_devices(&state).devices[0];
    assert!(row.connected && !row.explicitly_disconnected);

    let d = &mut state.devices[0];
    let mut ring = RingBuffer::new(1);
    let step = d.owner.io_step(&mut d.state, &mut ring, IoEvent::Control(ControlMsg::Disconnect));
    assert!(matches!(step, IoStep::AckAndEnd(_)));
    d.owner.session_ended(&mut d.state, "disconnected on request");
    let row = &list_devices(&state).devices[0];
    assert!(!row.connected && row.explicitly_disconnected);
    assert!(!disconnect_finished(&state.devices[0]).device.connected);

    let d = &mut state.devices[0];
    d.owner.wait_step(&mut d.state, &mut d.config, WaitEvent::Control(ControlMsg::Connect));
    d.owner.opened(&mut d.state, Backend::Fd, 1);
    let row = &list_devices(&state).devices[0];
    assert!(row.connected && !row.explicitly_disconnected);
    assert!(connect_finished(&state.devices[0]).connected);
}

#[test]
fn ports_handler_returns_array() {
    assert!(list_ports(&None).ports.is_empty());
    let found = vec![
        FoundPort {
            path: "/dev/ttyUSB0".to_string(),
            kind: FoundKind::Usb(UsbPort {
                vid: 0x0403,
                pid: 0x6001,
                manufacturer: Some("FTDI".to_string()),
                product: None,
                serial_number: None,
            }),
        },
        FoundPort { path: "/dev/ttyS0".to_string(), kind: FoundKind::Unknown },
        FoundPort { path: "p".to_string(), kind: FoundKind::Pci },
        FoundPort { path: "b".to_string(), kind: FoundKind::Bluetooth },
    ];
    let r = list_ports(&Some(found));
    assert_eq!(r.ports.len(), 4);
    assert_eq!(r.ports[0].kind, "usb");
    assert_eq!(r.ports[0].vid.as_deref(), Some("0403"));
    assert_eq!(r.ports[0].pid.as_deref(), Some("6001"));
    assert_eq!(r.ports[0].manufacturer.as_deref(), Some("FTDI"));
    assert_eq!(r.ports[1].kind, "unknown");
    assert!(r.ports[1].vid.is_none());
    assert_eq!((r.ports[2].kind.as_str(), r.ports[3].kind.as_str()), ("pci", "bluetooth"));
}

#[test]
fn set_device_validates_everything_first() {
    let state = daemon(&["a"]);
    let ask = |p: &SetDeviceParams| set_device(&state, p);
    let mut p = SetDeviceParams::default();
    let e = ask(&p).unwrap_err();
    assert_eq!(e.code, -32602);
    p.baud = Some(9600);
    p.data_bits = Some(9);
    let e = ask(&p).unwrap_err();
    assert_eq!((e.code, e.message.as_str()), (-32008, "data_bits must be 5..=8, got 9"));
    p.data_bits = Some(7);
    p.parity = Some("mark".to_string());
    assert_eq!(ask(&p).unwrap_err().message, "parity must be none|odd|even, got \"mark\"");
    p.parity = Some("odd".to_string());
    p.stop_bits = Some(3);
    assert_eq!(ask(&p).unwrap_err().message, "stop_bits must be 1 or 2, got 3");
    p.stop_bits = Some(2);
    p.flow_control = Some("x".to_string());
    assert_eq!(
        ask(&p).unwrap_err().message,
        "flow_control must be none|software|hardware, got \"x\""
    );
    p.flow_control = Some("soft".to_string());
    let (i, s) = ask(&p).unwrap();
    assert_eq!(i, 0);
    assert_eq!(s.baud, Some(9600));
    assert_eq!(s.data_bits, Some(DataBits::Seven));
    assert_eq!(s.parity, Some(Parity::Odd));
    assert_eq!(s.stop_bits, Some(StopBits::Two));
    assert_eq!(s.flow_control, Some(FlowControl::Software));
    p.device_id = Some("nope".to_string());
    assert_eq!(ask(&p).unwrap_err().code, -32009);
}

#[test]
fn set_device_outcomes() {
    let state = daemon(&["a"]);
    let (r, event) = set_device_finished(&state.devices[0], &Ok(())).unwrap();
    assert_eq!(r.device.baud, 115200);
    assert_eq!(event.kind, DeviceEventKind::ConfigChanged);
    assert_eq!(event.detail.as_deref(), Some("config changed: 115200 8N1 flow=none"));
    let refused = Err(IoFault::new(FaultKind::Other, "nope"));
    assert_eq!(set_device_finished(&state.devices[0], &refused).unwrap_err().code, -32008);
    let cannot = Err(IoFault::new(FaultKind::Unsupported, "nope"));
    assert_eq!(set_device_finished(&state.devices[0], &cannot).unwrap_err().code, -32007);
    let gone = Err(IoFault::new(FaultKind::NotConnected, "nope"));
    assert_eq!(set_device_finished(&state.devices[0], &gone).unwrap_err().code, -32005);
}

#[test]
fn line_requests_name_their_device_and_work() {
    let state = daemon(&["a", "b"]);
    let b = Some("b".to_string());
    let p = SendBreakParams { device_id: b.clone(), duration_ms: 250 };
    assert_eq!(send_break(&state, &p).unwrap(), (1, ControlMsg::SendBreak(250)));
    let p = SetLineParams { device_id: b.clone(), on: true };
    assert_eq!(set_dtr(&state, &p).unwrap(), (1, ControlMsg::SetDtr(true)));
    let p = SetLineParams { device_id: b.clone(), on: false };
    assert_eq!(set_rts(&state, &p).unwrap(), (1, ControlMsg::SetRts(false)));
    let p = DeviceTarget { device_id: b.clone() };
    assert_eq!(read_modem_status(&state, &p).unwrap(), (1, ControlMsg::ReadModem));
    assert_eq!(disconnect_device(&state, &p).unwrap(), (1, ControlMsg::Disconnect));
    assert_eq!(connect_device(&state, &p).unwrap(), (1, ControlMsg::Connect));
    let p = ReconnectParams { device_id: b, wait: true, timeout_ms: 700 };
    assert_eq!(reconnect(&state, &p).unwrap(), (1, Some(700)));
    let p = ReconnectParams { device_id: Some("a".to_string()), wait: false, timeout_ms: 700 };
    assert_eq!(reconnect(&state, &p).unwrap(), (0, None));
    let p = DeviceTarget { device_id: None };
    assert_eq!(connect_device(&state, &p).unwrap_err().code, -32015);
    assert_eq!(reconnect(&state, &default_reconnect_params()).unwrap_err().code, -32015);
    let p = DeviceTarget { device_id: Some("z".to_string()) };
    assert_eq!(disconnect_device(&state, &p).unwrap_err().code, -32009);
}

#[test]
fn reconnect_reports() {
    let mut state = daemon(&["a"]);
    let p = default_reconnect_params();
    assert!(p.wait && p.timeout_ms == 5000 && p.device_id.is_none());
    let r = reconnect_result(&state.devices[0], ReconnectWait::TimedOut);
    assert!(r.triggered && r.reconnected && r.device_connected && r.reason.is_none());
    let d = &mut state.devices[0];
    d.owner.session_ended(&mut d.state, "EOF");
    let r = reconnect_result(&state.devices[0], ReconnectWait::TimedOut);
    assert!(!r.reconnected && !r.device_connected);
    assert_eq!(r.reason.as_deref(), Some("EOF"));
    let r = reconnect_result(&state.devices[0], ReconnectWait::Skipped);
    assert!(!r.reconnected);
    let r = reconnect_result(&state.devices[0], ReconnectWait::Reopened);
    assert!(r.reconnected);
}
