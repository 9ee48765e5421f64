use serial_tether::command::{DeviceCall, ExecArgs};
use serial_tether::exec::{
    check_exec_shell, exec_newline, exec_outcome, exec_output, exec_params, exec_status,
    exec_timeout_line, newline_overridden, unknown_status_hint, wrap_exec_command, wrap_with_tag,
};
use serial_tether::message::{
    DeviceInfo, DeviceSummary, ListDevicesResult, PortInfo, ReadModemStatusResult,
};
use serial_tether::render::{
    captured_text, config_lines, device_event_text, device_lines, exec_summary, lacks_newline,
    match_summary, modem_line, notified_bytes, port_lines, shows_exec_summary,
    shows_match_summary,
};
use serial_tether::shell::{
    break_text, call_of, config_text, failure_text, greeting, help, line_text, lines_text, ports_text,
    unknown_escape_text, Key, ShellCommand, ShellState,
};

// ---------- exec ----------

#[test]
fn wrapper_is_one_line() {
    let w = wrap_with_tag("mdio list", "0123456789ab");
    assert_eq!(
        w.line,
        "echo \"TETHEREXECBE\"\"G0123456789ab\"; mdio list; echo \"TETHEREXECEN\"\"D0123456789ab=$?\""
    );
    assert_eq!(w.end_pattern, "TETHEREXECEND0123456789ab=(\\S*)");
    assert_eq!(w.begin_marker, "TETHEREXECBEG0123456789ab");
    assert!(!w.line.contains(&w.begin_marker));
    assert!(!w.line.contains("TETHEREXECEND0123456789ab"));
}

#[test]
fn tags_are_random() {
    let a = wrap_exec_command("x");
    let b = wrap_exec_command("x");
    assert_ne!(a.begin_marker, b.begin_marker);
    assert_eq!(a.begin_marker.len(), "TETHEREXECBEG".len() + 12);
    let tag = &a.begin_marker["TETHEREXECBEG".len()..];
    assert_eq!(a.line, wrap_with_tag("x", tag).line);
}

#[test]
fn output_stands_between_the_markers() {
    let m = "TETHEREXECBEGx";
    assert_eq!(exec_output("echo ..\r\nTETHEREXECBEGx\r\nout\r\n", m), "out\r\n");
    assert_eq!(exec_output("wrapped\nechoTETHEREXECBEGx\nout", m), "out");
    assert_eq!(exec_output("TETHEREXECBEGx", m), "");
    assert_eq!(exec_output("no marker", m), "no marker");
}

#[test]
fn statuses_are_never_made_up() {
    assert_eq!(exec_status("TETHEREXECENDx=0"), Some(0));
    assert_eq!(exec_status("TETHEREXECENDx=127"), Some(127));
    assert_eq!(exec_status("TETHEREXECENDx=300"), Some(255));
    assert_eq!(exec_status("TETHEREXECENDx=$__trc"), None);
    assert_eq!(exec_status("TETHEREXECENDx="), None);
    assert_eq!(exec_status("TETHEREXECENDx=-1"), None);
    assert_eq!(exec_status("TETHEREXECENDx=+1"), None);
    assert_eq!(exec_status("0"), None);
    assert_eq!(exec_status("a=1= 2 "), Some(2));
    assert_eq!(exec_status("x=99999999999999999999"), None);
    assert!(exec_outcome(Some(0)).is_ok());
    assert_eq!(exec_outcome(Some(3)).unwrap_err().exit_code(), 3);
    assert_eq!(exec_outcome(None).unwrap_err().exit_code(), 8);
    assert_eq!(
        unknown_status_hint(),
        "device shell did not report a numeric status (non-POSIX console?) — see docs/EXEC_NONPOSIX_SHELLS.md"
    );
}

#[test]
fn exec_respects_the_console_personality() {
    let cr = || Some("cr".to_string());
    let crlf = || Some("crlf".to_string());
    assert_eq!(exec_newline("posix", &None, &None), "cr");
    assert_eq!(exec_newline("posix", &crlf(), &cr()), "crlf");
    assert_eq!(exec_newline("posix", &None, &Some("lf".to_string())), "lf");
    assert_eq!(exec_newline("posix", &None, &Some("none".to_string())), "cr");
    assert_eq!(exec_newline("uboot", &crlf(), &crlf()), "cr");
    assert!(newline_overridden("uboot", &crlf()));
    assert!(!newline_overridden("uboot", &cr()));
    assert!(!newline_overridden("posix", &crlf()));
    assert!(check_exec_shell("posix").is_ok());
    assert!(check_exec_shell("uboot").is_ok());
    assert_eq!(
        check_exec_shell("none").unwrap_err().explain().unwrap(),
        "tether: device registered shell=none — use run/send/expect"
    );
    let args = ExecArgs {
        data: "x".to_string(),
        timeout_ms: 5000,
        strip_ansi: true,
        max_output_bytes: 65536,
        preempt: "fail".to_string(),
        newline: None,
    };
    let w = wrap_with_tag("x", "0123456789ab");
    let p = exec_params("s", &args, &w, "cr");
    assert_eq!(p.data_text.unwrap(), format!("{}\r", w.line));
    assert!(p.until.regex && !p.strip_echo);
    assert_eq!(p.until.pattern, w.end_pattern);
    assert_eq!(p.preempt, "fail");
}

#[test]
fn exec_timeouts_are_explained() {
    let id = Some("b".to_string());
    let uboot = exec_timeout_line("Unknown command 'x'", "posix", &id, "x", 5000);
    assert_eq!(
        uboot,
        "tether: exec timed out after 5000ms — the device looks like a U-Boot / raw console \
         (saw \"Unknown command\"). Try: tether -d b run \"x\" -u \"=> \" --newline cr or set \
         shell=uboot on the device"
    );
    assert!(exec_timeout_line("", "uboot", &None, "x", 1)
        .starts_with("tether: exec timed out after 1ms on a shell=uboot device"));
    assert!(exec_timeout_line("", "posix", &None, "x", 1)
        .contains("Is the device at a shell prompt?"));
}

// ---------- shell ----------

#[test]
fn plain_typing_reaches_the_device() {
    let mut s = ShellState::new();
    for b in b"ls\r" {
        assert_eq!(s.feed(*b), Key::Noted);
    }
    assert_eq!(s.take_typed(), b"ls\r");
    assert!(s.take_typed().is_empty());
}

#[test]
fn escapes_select_commands() {
    let mut s = ShellState::new();
    let mut esc = |b: u8| {
        s.feed(1);
        s.feed(b)
    };
    assert_eq!(esc(b'q'), Key::Quit);
    assert_eq!(esc(b'Q'), Key::Quit);
    assert_eq!(esc(b'?'), Key::Help);
    assert_eq!(esc(b'h'), Key::Help);
    assert_eq!(esc(b'c'), Key::Command(ShellCommand::Config));
    assert_eq!(esc(b'V'), Key::Command(ShellCommand::Ports));
    assert_eq!(esc(b'b'), Key::Command(ShellCommand::Break));
    assert_eq!(esc(b'L'), Key::Command(ShellCommand::Lines));
    assert_eq!(esc(b'x'), Key::Unknown(b'x'));
    assert_eq!(esc(b'd'), Key::Command(ShellCommand::Dtr(false)));
    assert_eq!(esc(b'D'), Key::Command(ShellCommand::Dtr(true)));
    assert_eq!(esc(b'r'), Key::Command(ShellCommand::Rts(false)));
    assert_eq!(esc(1), Key::Noted);
    assert_eq!(s.take_typed(), [1]);
}

#[test]
fn input_up_to_quit_reaches_the_device() {
    let mut s = ShellState::new();
    let mut sent = Vec::new();
    let mut quit = false;
    for b in *b"ls\x01d -l\x01\x01x\x01?y\x01qrest" {
        match s.feed(b) {
            Key::Quit => {
                sent.extend(s.take_typed());
                quit = true;
                break;
            }
            Key::Command(c) => {
                sent.extend(s.take_typed());
                s.undo(c);
            }
            _ => {}
        }
    }
    assert!(quit && s.dtr_on);
    assert_eq!(sent, b"ls -l\x01xy");
}

#[test]
fn commands_make_their_calls() {
    let method = |c: ShellCommand| call_of(c).method().as_str();
    assert_eq!(method(ShellCommand::Config), "status");
    assert_eq!(method(ShellCommand::Ports), "list_ports");
    assert_eq!(method(ShellCommand::Lines), "read_modem_status");
    assert!(matches!(
        call_of(ShellCommand::Break),
        DeviceCall::SendBreak(p) if p.duration_ms == 250 && p.device_id.is_none()
    ));
    assert!(matches!(call_of(ShellCommand::Dtr(false)), DeviceCall::SetDtr(p) if !p.on));
    assert!(matches!(call_of(ShellCommand::Rts(true)), DeviceCall::SetRts(p) if p.on));
}

#[test]
fn failed_toggle_is_undone() {
    let mut s = ShellState::new();
    s.feed(1);
    assert_eq!(s.feed(b'd'), Key::Command(ShellCommand::Dtr(false)));
    s.undo(ShellCommand::Dtr(false));
    assert!(s.dtr_on);
    s.feed(1);
    assert_eq!(s.feed(b'd'), Key::Command(ShellCommand::Dtr(false)));
}

#[test]
fn shell_texts() {
    let m = ReadModemStatusResult { cts: true, dsr: false, ri: false, dcd: true };
    assert_eq!(lines_text(&m), "\r\n[lines: CTS=1 DSR=0 RI=0 DCD=1]\r\n");
    assert_eq!(modem_line(&m), "CTS=1  DSR=0  RI=0  DCD=1");
    assert_eq!(line_text("DTR", true), "\r\n[DTR: asserted]\r\n");
    assert_eq!(line_text("RTS", false), "\r\n[RTS: deasserted]\r\n");
    assert_eq!(break_text(), "\r\n[break: 250ms]\r\n");
    assert_eq!(unknown_escape_text(b'x'), "\r\n[unknown escape: Ctrl-A x]\r\n");
    assert_eq!(
        failure_text(ShellCommand::Dtr(true), &Some("no".to_string())),
        "\r\n[DTR error: no]\r\n"
    );
    assert_eq!(failure_text(ShellCommand::Ports, &None), "\r\n[list_ports: timeout]\r\n");
    assert!(greeting().contains("Ctrl-A Q quit"));
    assert!(help().contains("[Ctrl-A ^A : send literal Ctrl-A]"));
}

fn info() -> DeviceInfo {
    DeviceInfo {
        path: "/dev/x".to_string(),
        baud: 9600,
        data_bits: 7,
        parity: "odd".to_string(),
        stop_bits: 2,
        flow_control: "none".to_string(),
        connected: true,
        id: None,
        shell: "posix".to_string(),
        prompt: None,
        newline: None,
    }
}

fn port(path: &str, product: Option<&str>, vid: Option<&str>) -> PortInfo {
    PortInfo {
        path: path.to_string(),
        kind: "usb".to_string(),
        manufacturer: None,
        product: product.map(|p| p.to_string()),
        serial_number: None,
        vid: vid.map(|v| v.to_string()),
        pid: vid.map(|_| "6001".to_string()),
    }
}

#[test]
fn configuration_is_shown() {
    assert_eq!(config_text(&info()), "\r\n[config: 9600 7O2 flow=none]\r\n");
    assert_eq!(
        config_lines(&info()),
        [
            "path:         /dev/x",
            "baud:         9600",
            "framing:      7O2",
            "flow_control: none",
            "connected:    true",
        ]
    );
}

#[test]
fn ports_are_shown() {
    let ports = vec![port("/dev/a", Some("FT232"), Some("0403")), port("/dev/b", None, None)];
    assert_eq!(
        port_lines(&ports),
        ["/dev/a  (usb)  product=FT232, usb=0403:6001", "/dev/b  (usb)"]
    );
    assert_eq!(
        ports_text(&ports),
        ["\r\n[ports]\r\n", "  /dev/a  (usb)  FT232\r\n", "  /dev/b  (usb)\r\n", "\r\n"]
    );
    assert_eq!(ports_text(&Vec::new()), ["\r\n[no serial ports detected]\r\n"]);
}

#[test]
fn devices_are_shown() {
    let d = |id: &str, connected: bool, explicit: bool| DeviceSummary {
        id: id.to_string(),
        path: "/dev/x".to_string(),
        baud: 115200,
        data_bits: 8,
        parity: "none".to_string(),
        stop_bits: 1,
        flow_control: "none".to_string(),
        connected,
        explicitly_disconnected: explicit,
        shell: "posix".to_string(),
        prompt: None,
        newline: None,
    };
    let l = ListDevicesResult {
        devices: vec![d("a", true, false), d("b", false, true), d("longer-than-ten", false, false)],
        default_device: "a".to_string(),
    };
    assert_eq!(
        device_lines(&l),
        [
            "a           /dev/x @ 115200 8N1 flow=none  [connected] (default)",
            "b           /dev/x @ 115200 8N1 flow=none  [disconnected (explicit)]",
            "longer-than-ten  /dev/x @ 115200 8N1 flow=none  [disconnected]",
        ]
    );
}

#[test]
fn results_are_summarised() {
    assert_eq!(match_summary("# ", Some(42), false, None), "[matched: \"# \", 42ms]");
    assert_eq!(
        match_summary("\n", None, true, Some(9000)),
        "[matched: \"\\n\", truncated from 9000B]"
    );
    assert_eq!(match_summary("", None, true, None), "[matched: \"\", truncated]");
    assert_eq!(exec_summary(Some(1), Some(5), false, None), "[exit 1, 5ms]");
    assert_eq!(exec_summary(None, None, false, None), "[exit unknown]");
    assert!(shows_match_summary(true, false) && !shows_match_summary(false, false));
    assert!(shows_exec_summary(Some(1), false, false));
    assert!(shows_exec_summary(None, false, false));
    assert!(!shows_exec_summary(Some(0), false, false));
    assert!(lacks_newline("a", false) && !lacks_newline("a\n", false));
    assert!(lacks_newline("", false) && !lacks_newline("", true));
    assert_eq!(captured_text("aGkK").unwrap(), "hi\n");
    assert_eq!(captured_text("/w==").unwrap(), "\u{fffd}");
    assert!(captured_text("!").is_none());
}

#[test]
fn notifications_are_for_their_session() {
    let data = Some("aGk=".to_string());
    let ours = Some("s".to_string());
    assert_eq!(notified_bytes(&ours, &data, "s").unwrap(), b"hi");
    assert_eq!(notified_bytes(&None, &data, "s").unwrap(), b"hi");
    assert!(notified_bytes(&ours, &data, "t").is_none());
    assert!(notified_bytes(&ours, &None, "s").is_none());
    assert!(notified_bytes(&ours, &Some("!".to_string()), "s").is_none());
    assert_eq!(device_event_text("reconnected", ""), "[device reconnected]");
    assert_eq!(device_event_text("disconnected", "EOF"), "[device disconnected: EOF]");
}
