use serial_tether::client::{
    after_recovery, already_managed_lines, answers, autostart, check_standalone, dash_d_hint,
    device_picker, embedded_daemon_args, embedded_exited, embedded_not_bound, embedded_step,
    endpoint_kind, env_forces_noninteractive, interactive_allowed, is_daemon_socket_name, make_tcp_connect_error,
    make_uds_connect_error, managed_device_id, map_rpc_error, may_autostart, menu_lines,
    menu_prompt, no_port_picked, pick_index, port_description, port_of, private_path,
    rewrite_argv_for_path_shorthand, select_port_choices, share_lines, should_reconnect, tcp_share,
    AfterRecovery, AutoStart, CliError, DialFault, EmbeddedStep, Endpoint, PortChoice, Recovery,
    TcpShare,
};
use serial_tether::command::{
    apply_newline, attach_params, command_needs_device, default_command, device_call,
    expect_params, find_row, hello_params, last_line, needs_personality, prompt_candidate,
    report_connect, report_reconnect, run_newline, run_params, run_until, select_status,
    send_params, session_replay, sync_heard, sync_idle, sync_params, sync_window, target_row,
    typed_params, wait_timeout_line, Cmd, ConfigArgs, DeviceCall, ExecArgs, RunArgs,
};
use serial_tether::conn::Method;
use serial_tether::control::{list_devices, status};
use serial_tether::error::ErrorCode;
use serial_tether::handlers::collect_send_bytes;
use serial_tether::message::{ReplaySpec, RpcId};
use serial_tether::serial::{DataBits, FlowControl, Parity, SerialConfig, StopBits};
use serial_tether::startup::initial_state;
use serial_tether::state::{ConsolePersonality, DaemonState, Device};

fn daemon(ids: &[&str]) -> DaemonState {
    let devices = ids
        .iter()
        .map(|id| {
            let cfg = SerialConfig {
                path: format!("/dev/{id}"),
                baud: 115200,
                data_bits: DataBits::Eight,
                parity: Parity::Disabled,
                stop_bits: StopBits::One,
                flow_control: FlowControl::Disabled,
            };
            Device::new(id.to_string(), 16, cfg, ConsolePersonality::default())
        })
        .collect();
    initial_state(devices, None)
}

fn strings(v: &[&str]) -> Vec<String> {
    v.iter().map(|s| s.to_string()).collect()
}

#[test]
fn select_port_choices_keeps_usb_cu_drops_tty_and_nonusb() {
    // Mirrors what macOS `available_ports()` returns: cu/tty pairs plus
    // virtual non-USB entries. Only the USB call-out (`cu.*`) nodes survive.
    let input = vec![
        ("/dev/cu.debug-console".to_string(), None),
        ("/dev/tty.debug-console".to_string(), None),
        (
            "/dev/cu.usbserial-0001".to_string(),
            Some("CP2102 USB to UART".to_string()),
        ),
        (
            "/dev/tty.usbserial-0001".to_string(),
            Some("CP2102 USB to UART".to_string()),
        ),
        ("/dev/cu.usbserial-3".to_string(), Some(String::new())),
        ("/dev/tty.usbserial-3".to_string(), Some(String::new())),
    ];
    let got = select_port_choices(input);
    let paths: Vec<&str> = got.iter().map(|c| c.path.as_str()).collect();
    assert_eq!(paths, ["/dev/cu.usbserial-0001", "/dev/cu.usbserial-3"]);
    // Label carries the description when present, bare path otherwise.
    assert_eq!(got[0].label, "/dev/cu.usbserial-0001  (CP2102 USB to UART)");
    assert_eq!(got[1].label, "/dev/cu.usbserial-3");
}

#[test]
fn select_port_choices_keeps_linux_ttyusb() {
    // Linux nodes are `/dev/ttyUSB0` (no dot) — must NOT be filtered.
    let input = vec![
        ("/dev/ttyUSB0".to_string(), Some("FT232".to_string())),
        ("/dev/ttyACM0".to_string(), Some(String::new())),
    ];
    let paths: Vec<String> = select_port_choices(input)
        .into_iter()
        .map(|c| c.path)
        .collect();
    assert_eq!(paths, ["/dev/ttyUSB0", "/dev/ttyACM0"]);
}

#[test]
fn command_needs_device_excludes_inspection_commands() {
    assert!(!command_needs_device(&Cmd::Status));
    assert!(!command_needs_device(&Cmd::ListDevices));
    assert!(!command_needs_device(&Cmd::Ports));
    assert!(!command_needs_device(&Cmd::Agents));
    assert!(command_needs_device(&Cmd::Tail { from: "now".into() }));
    assert!(command_needs_device(&Cmd::Lines));
}

#[test]
fn path_shorthand_no_dash_d_required() {
    let rewrite = |v: &[&str]| {
        let mut a = strings(v);
        rewrite_argv_for_path_shorthand(&mut a);
        a
    };
    assert_eq!(
        rewrite(&["tether", "/dev/ttyUSB0", "status"]),
        ["tether", "-D", "/dev/ttyUSB0", "status"]
    );
    assert_eq!(rewrite(&["tether", "~x"]), ["tether", "-D", "~x"]);
    assert_eq!(rewrite(&["tether", "status"]), ["tether", "status"]);
    assert_eq!(rewrite(&["tether", "-s", "/x"]), ["tether", "-s", "/x"]);
    assert_eq!(rewrite(&["tether"]), ["tether"]);
    assert_eq!(rewrite(&["tether", "/x", "-D", "/y"]), ["tether", "/x", "-D", "/y"]);
    assert_eq!(rewrite(&["tether", "/x", "--device", "y"]), ["tether", "/x", "--device", "y"]);
}

#[test]
fn endpoints() {
    assert!(matches!(endpoint_kind("tcp://h:1"), Endpoint::Tcp("h:1")));
    assert!(matches!(endpoint_kind("tcp:h:1"), Endpoint::Tcp("h:1")));
    assert!(matches!(endpoint_kind("/tmp/x.sock"), Endpoint::Uds("/tmp/x.sock")));
    assert!(check_standalone("/tmp/x.sock").is_ok());
    assert_eq!(check_standalone("tcp://h:1").unwrap_err().exit_code(), 3);
}

#[test]
fn noninteractive_values() {
    for off in ["", "0", " false ", "No", "OFF"] {
        assert!(!env_forces_noninteractive(Some(off)));
    }
    for on in ["1", "true", "yes", "x"] {
        assert!(env_forces_noninteractive(Some(on)));
    }
    assert!(!env_forces_noninteractive(None));
    assert!(interactive_allowed(false, None, true, true));
    assert!(!interactive_allowed(true, None, true, true));
    assert!(!interactive_allowed(false, Some("1"), true, true));
    assert!(!interactive_allowed(false, None, false, true));
    assert!(!interactive_allowed(false, None, true, false));
}

#[test]
fn menus() {
    let labels = strings(&["x", "y"]);
    assert_eq!(menu_lines("Pick:", &labels), ["Pick:", "  1) x", "  2) y"]);
    assert_eq!(menu_prompt(2), "Select [1-2] (Enter=1): ");
    assert_eq!(pick_index("\n", 2), Some(0));
    assert_eq!(pick_index(" 2 \n", 2), Some(1));
    assert_eq!(pick_index("3", 2), None);
    assert_eq!(pick_index("0", 2), None);
    assert_eq!(pick_index("x", 2), None);
    assert_eq!(pick_index("", 0), None);
    assert_eq!(pick_index("99999999999999999999", 2), None);
    assert_eq!(port_description(&None, &Some("m".to_string())), "m");
    assert_eq!(port_description(&Some("p".to_string()), &Some("m".to_string())), "p");
    assert_eq!(port_description(&None, &None), "");
}

#[test]
fn device_picker_labels() {
    assert!(device_picker(&list_devices(&daemon(&["a"]))).is_none());
    let labels = device_picker(&list_devices(&daemon(&["a", "b"]))).unwrap();
    assert_eq!(labels, ["a  [/dev/a]  (disconnected)", "b  [/dev/b]  (disconnected)"]);
}

#[test]
fn autostart_decisions() {
    assert!(may_autostart(false, false, false, true, false));
    assert!(!may_autostart(true, false, false, true, false));
    assert!(!may_autostart(false, false, false, true, true));
    assert!(!may_autostart(false, false, false, false, false));
    let port = |p: &str| PortChoice { path: p.to_string(), label: p.to_string() };
    match autostart(&Vec::new()) {
        AutoStart::Fail(e) => {
            assert!(e.explain().unwrap().starts_with("tether: no USB serial ports found."))
        }
        other => panic!("unexpected {other:?}"),
    }
    assert!(matches!(autostart(&vec![port("/x")]), AutoStart::Open(p) if p == "/x"));
    assert!(matches!(autostart(&vec![port("/x"), port("/y")]), AutoStart::Ask));
    assert_eq!(no_port_picked().exit_code(), 3);
}

#[test]
fn standalone_redirects_to_existing_daemon() {
    assert!(is_daemon_socket_name("tetherd.sock"));
    assert!(is_daemon_socket_name("tetherd-lab.sock"));
    assert!(!is_daemon_socket_name("tether-1-2.sock"));
    assert!(!is_daemon_socket_name("tetherd.log"));
    let l = list_devices(&daemon(&["board0", "board1"]));
    assert_eq!(managed_device_id(&l.devices, "/dev/board1").as_deref(), Some("board1"));
    assert_eq!(managed_device_id(&l.devices, "/dev/other"), None);
    let lines = already_managed_lines("/dev/board0", "/tmp/tetherd.sock", "board0");
    assert_eq!(
        lines[0],
        "tether: device /dev/board0 is already managed by daemon at /tmp/tetherd.sock (id: board0)"
    );
    assert!(lines[1].starts_with("tether: attaching as a client"));
}

#[test]
fn private_daemon() {
    assert!(tcp_share(&None, &Some("t".to_string())).is_none());
    let s = tcp_share(&Some("0.0.0.0:5557".to_string()), &None).unwrap();
    assert_eq!(s.token.len(), 32);
    let share = Some(TcpShare { bind: "h:1".to_string(), token: "t".to_string() });
    assert_eq!(
        embedded_daemon_args("/dev/x", 9600, "/tmp/s", &share),
        ["-D", "/dev/x", "-b", "9600", "-s", "/tmp/s", "--tcp", "h:1", "--auth-token", "t"]
    );
    assert_eq!(
        embedded_daemon_args("/dev/x", 9600, "/tmp/s", &None),
        ["-D", "/dev/x", "-b", "9600", "-s", "/tmp/s"]
    );
    assert_eq!(private_path(12, 34, ".sock"), "/tmp/tether-12-34.sock");
    assert_eq!(port_of("0.0.0.0:5557"), "5557");
    assert_eq!(port_of("[::]:5557"), "5557");
    assert_eq!(port_of("5557"), "5557");
    let lines = share_lines(&share.unwrap());
    assert_eq!(lines.len(), 8);
    assert_eq!(lines[5], "tether:       tether -s tcp://<this-host>:1 status");
    assert_eq!(lines[4], "tether:     TETHER_AUTH_TOKEN=t \\");
}

#[test]
fn private_daemon_start_is_judged_in_order() {
    assert_eq!(embedded_step(0, false, false), EmbeddedStep::Poll);
    assert_eq!(embedded_step(4999, true, true), EmbeddedStep::Ready);
    assert_eq!(embedded_step(100, false, true), EmbeddedStep::Exited);
    assert_eq!(embedded_step(5000, true, false), EmbeddedStep::TimedOut);
}

#[test]
fn hints_and_connection_errors() {
    assert_eq!(dash_d_hint("/dev/x", false), "");
    assert_eq!(dash_d_hint("x", true), "");
    assert!(dash_d_hint("board0", false).ends_with("use lowercase `-d board0` instead."));
    let e = embedded_exited("exit status: 1", "", "log");
    assert_eq!(
        e.explain().unwrap(),
        "tether: embedded tetherd exited (status exit status: 1) before binding socket\n\nlog"
    );
    assert_eq!(
        embedded_not_bound("/tmp/s").explain().unwrap(),
        "tether: connection error: tether: embedded tetherd did not bind \"/tmp/s\" within 5s"
    );
    let text = |e: CliError| match e {
        CliError::Connection(m) => m,
        other => panic!("unexpected {other:?}"),
    };
    assert!(text(make_uds_connect_error("/s", DialFault::NotFound, "x"))
        .starts_with("tether: cannot connect to /s — socket file does not exist"));
    assert!(text(make_uds_connect_error("/s", DialFault::Refused, "x"))
        .starts_with("tether: cannot connect to /s — connection refused (stale socket"));
    assert_eq!(text(make_uds_connect_error("/s", DialFault::Other, "boom")), "connect /s: boom");
    assert!(text(make_tcp_connect_error("h:1", "refused"))
        .starts_with("tether: cannot connect to tcp://h:1 — refused\n"));
}

#[test]
fn rpc_errors_and_exit_codes() {
    let code = |c: ErrorCode| map_rpc_error(c.as_i32(), "m").exit_code();
    assert_eq!(code(ErrorCode::Timeout), 124);
    assert_eq!(code(ErrorCode::DeviceDisconnected), 4);
    assert_eq!(code(ErrorCode::BufferOverflow), 5);
    assert_eq!(code(ErrorCode::LockContention), 6);
    assert_eq!(code(ErrorCode::Unauthorized), 7);
    assert_eq!(code(ErrorCode::AmbiguousDevice), 2);
    assert_eq!(
        map_rpc_error(-32015, "which?").explain().unwrap(),
        "protocol error: rpc -32015: which?"
    );
    assert_eq!(map_rpc_error(-32014, "no").explain().unwrap(), "tether: unauthorized: no");
    assert_eq!(CliError::RemoteExit(3).exit_code(), 3);
    assert_eq!(CliError::UnknownStatus.exit_code(), 8);
    assert_eq!(CliError::Usage("x".to_string()).exit_code(), 1);
    assert!(CliError::Timeout.explain().is_none());
    assert!(CliError::BufferOverflow.explain().is_some());
    assert_eq!(
        CliError::LockContention.explain().unwrap(),
        "tether: device is locked by another session (flashing?) — try again after it unlocks"
    );
}

#[test]
fn calls_and_retries() {
    assert!(answers(&RpcId::Number(4), 4));
    assert!(!answers(&RpcId::Number(5), 4));
    assert!(!answers(&RpcId::Text("4".to_string()), 4));
    assert!(should_reconnect(true, "send", &CliError::DeviceDisconnected));
    assert!(!should_reconnect(false, "send", &CliError::DeviceDisconnected));
    assert!(!should_reconnect(true, "reconnect", &CliError::DeviceDisconnected));
    assert!(!should_reconnect(true, "send", &CliError::Timeout));
    assert_eq!(after_recovery(Recovery::Back), AfterRecovery::Retry);
    assert_eq!(after_recovery(Recovery::StillGone), AfterRecovery::Disconnected);
    assert_eq!(after_recovery(Recovery::CallFailed), AfterRecovery::FirstFailure);
}

fn run_args() -> RunArgs {
    RunArgs {
        data: "version".to_string(),
        until: None,
        timeout_ms: 3000,
        literal: false,
        strip_ansi: true,
        strip_echo: true,
        max_output_bytes: 8192,
        preempt: "queue".to_string(),
        newline: None,
    }
}

#[test]
fn sessions_of_commands() {
    let replay = |c: &Cmd| session_replay(c);
    assert_eq!(replay(&default_command()).as_deref(), Some("now"));
    assert_eq!(replay(&Cmd::Tail { from: "start".to_string() }).as_deref(), Some("start"));
    assert_eq!(replay(&Cmd::Run(run_args())).as_deref(), Some("now"));
    assert_eq!(replay(&Cmd::Status), None);
    let h = hello_params("tether", &Some("t".to_string()));
    assert_eq!((h.protocol_version.as_str(), h.client.kind.as_str()), ("1", "agent"));
    assert_eq!(h.auth_token.as_deref(), Some("t"));
    let a = attach_params("start", &Some("b".to_string()));
    assert!(matches!(a.replay, ReplaySpec::Named(s) if s == "start"));
    assert_eq!((a.mode.as_str(), a.flow_control.as_str()), ("rw", "drop_oldest"));
    assert_eq!(a.device_id.as_deref(), Some("b"));
    assert_eq!(a.label.as_deref(), Some("tether"));
    assert!(needs_personality(&Cmd::Run(run_args())));
    assert!(!needs_personality(&Cmd::Lines));
    let full = RunArgs {
        until: Some("x".to_string()),
        newline: Some("cr".to_string()),
        ..run_args()
    };
    assert!(needs_personality(&Cmd::Run(full)));
    assert!(needs_personality(&Cmd::Exec(ExecArgs {
        data: "x".to_string(),
        timeout_ms: 1,
        strip_ansi: true,
        max_output_bytes: 1,
        preempt: "queue".to_string(),
        newline: Some("lf".to_string()),
    })));
}

#[test]
fn single_calls_of_commands() {
    let id = Some("b".to_string());
    let call = |c: &Cmd| device_call(c, &id).unwrap();
    assert_eq!(call(&Cmd::Status).method(), Method::Status);
    assert_eq!(call(&Cmd::ListDevices).method(), Method::ListDevices);
    assert_eq!(call(&Cmd::Ports).method(), Method::ListPorts);
    match call(&Cmd::Break { duration_ms: 9 }) {
        DeviceCall::SendBreak(p) => {
            assert_eq!((p.device_id.as_deref(), p.duration_ms), (Some("b"), 9))
        }
        other => panic!("unexpected {other:?}"),
    }
    assert!(matches!(
        call(&Cmd::Dtr { state: "on".to_string() }),
        DeviceCall::SetDtr(p) if p.on
    ));
    assert!(matches!(
        call(&Cmd::Rts { state: "off".to_string() }),
        DeviceCall::SetRts(p) if !p.on
    ));
    assert_eq!(call(&Cmd::Lines).method(), Method::ReadModemStatus);
    match call(&Cmd::Reconnect { nowait: true, timeout_ms: 7 }) {
        DeviceCall::Reconnect(p) => assert!(!p.wait && p.timeout_ms == 7),
        other => panic!("unexpected {other:?}"),
    }
    assert_eq!(call(&Cmd::Disconnect).method(), Method::DisconnectDevice);
    assert_eq!(call(&Cmd::Connect).method(), Method::ConnectDevice);
    let nothing = ConfigArgs {
        baud: None,
        data_bits: None,
        parity: None,
        stop_bits: None,
        flow_control: None,
    };
    assert_eq!(call(&Cmd::Config(nothing)).method(), Method::Status);
    let some = ConfigArgs {
        baud: Some(9600),
        data_bits: None,
        parity: Some("odd".to_string()),
        stop_bits: None,
        flow_control: None,
    };
    match call(&Cmd::Config(some)) {
        DeviceCall::SetDevice(p) => {
            assert_eq!((p.baud, p.parity.as_deref()), (Some(9600), Some("odd")));
            assert_eq!(p.device_id.as_deref(), Some("b"));
        }
        other => panic!("unexpected {other:?}"),
    }
    assert!(device_call(&Cmd::Agents, &id).is_none());
    assert!(device_call(&default_command(), &id).is_none());
}

#[test]
fn parameters_of_session_commands() {
    assert_eq!(apply_newline("a", "lf"), "a\n");
    assert_eq!(apply_newline("a", "cr"), "a\r");
    assert_eq!(apply_newline("a", "crlf"), "a\r\n");
    assert_eq!(apply_newline("a", "none"), "a");
    let p = send_params("s", "YQ==", true, "cr");
    assert_eq!((p.data.as_deref(), p.data_text), (Some("YQ=="), None));
    let p = send_params("s", "a", false, "cr");
    assert_eq!((p.data, p.data_text.as_deref()), (None, Some("a\r")));
    let p = typed_params("s", b"\x1b[A\xff");
    let sent = collect_send_bytes(p.data.as_deref(), p.data_text.as_deref()).unwrap();
    assert_eq!(sent, b"\x1b[A\xff");
    let p = typed_params("s", b"version\n");
    assert_eq!((p.data.as_deref(), p.data_text), (Some("dmVyc2lvbgo="), None));
    let p = expect_params("s", "x", 5, true, false, 9);
    assert!(!p.regex && !p.strip_ansi && p.timeout_ms == Some(5) && p.max_output_bytes == Some(9));
    let prompt = Some("=> ".to_string());
    assert_eq!(run_until(&Some("# ".to_string()), &prompt).unwrap(), "# ");
    assert_eq!(run_until(&None, &prompt).unwrap(), "=> ");
    let e = run_until(&None, &None).unwrap_err();
    assert!(e.explain().unwrap().starts_with("tether: run needs a --until/-u pattern"));
    let (lf, cr, crlf) = (Some("lf".to_string()), Some("cr".to_string()), Some("crlf".to_string()));
    assert_eq!(run_newline("posix", &None, &None), "none");
    assert_eq!(run_newline("posix", &None, &cr), "cr");
    assert_eq!(run_newline("none", &lf, &cr), "lf");
    assert_eq!(run_newline("uboot", &crlf, &None), "cr");
    assert_eq!(run_newline("uboot", &None, &crlf), "cr");
    assert_eq!(run_newline("uboot", &None, &None), "cr");
    let p = run_params("s", &run_args(), "# ", "cr");
    assert_eq!(p.data_text.as_deref(), Some("version\r"));
    assert_eq!((p.until.pattern.as_str(), p.until.regex), ("# ", true));
    assert!(p.strip_echo && p.max_output_bytes == Some(8192));
    assert_eq!(
        wait_timeout_line(3000, "# $"),
        "tether: timeout after 3000ms waiting for \"# $\""
    );
}

#[test]
fn status_of_a_chosen_device() {
    let state = daemon(&["a", "b"]);
    let s = select_status(status(&state), "b").unwrap();
    assert_eq!(s.device.path, "/dev/b");
    assert_eq!(s.devices.len(), 2);
    assert_eq!(s.default_device.as_deref(), Some("a"));
    let e = select_status(status(&state), "c").unwrap_err();
    assert_eq!(
        e.explain().unwrap(),
        "protocol error: device \"c\" not found (daemon has: a, b)"
    );
    let all = status(&state);
    assert_eq!(find_row(&all.devices, "b"), Some(1));
    assert_eq!(target_row(&all, &None), Some(0));
    assert_eq!(target_row(&all, &Some("b".to_string())), Some(1));
    assert_eq!(target_row(&all, &Some("c".to_string())), None);
}

#[test]
fn lifecycle_reports() {
    assert_eq!(report_reconnect(true, true, &None, 1), ("tether: device reopened".to_string(), true));
    assert!(report_reconnect(false, true, &None, 1).1);
    let (s, ok) = report_reconnect(false, false, &Some("gone".to_string()), 50);
    assert!(!ok);
    assert_eq!(
        s,
        "tether: reconnect requested but device is still disconnected after 50ms (gone)"
    );
    let (s, _) = report_reconnect(false, false, &None, 50);
    assert!(s.ends_with("after 50ms"));
    assert_eq!(report_connect(true), "tether: device reopened");
    assert_eq!(report_connect(false), "tether: connect requested but device is still closed");
}

#[test]
fn sync_listens_until_idle() {
    assert_eq!(sync_window(0, 2000, 300), Some(300));
    assert_eq!(sync_window(1900, 2000, 300), Some(100));
    assert_eq!(sync_window(2000, 2000, 300), None);
    assert!(sync_idle(300, 300, true));
    assert!(!sync_idle(299, 300, true));
    assert!(!sync_idle(300, 300, false));
    let p = sync_params("s", 300);
    assert_eq!((p.pattern.as_str(), p.timeout_ms), ("(?s).+", Some(300)));
    let mut heard = Vec::new();
    sync_heard(&mut heard, "YQ==", "b");
    sync_heard(&mut heard, "!", "c");
    assert_eq!(heard, b"abc");
}

#[test]
fn prompt_is_the_last_line_that_is_not_blank() {
    assert_eq!(last_line("a\r\n=> \r\n\r\n"), "=> ");
    assert_eq!(last_line("a\n# "), "# ");
    assert_eq!(last_line("a\n \t\n"), "a");
    assert_eq!(last_line("x\r"), "x\r");
    assert_eq!(last_line(""), "");
    assert_eq!(prompt_candidate(&b"boot\r\nlogin: ".to_vec()), "login: ");
    assert_eq!(prompt_candidate(&b"\xff> ".to_vec()), "\u{fffd}> ");
}
