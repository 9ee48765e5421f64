use serial_tether::banner::{banner_lines, Banner, TcpBanner};
use serial_tether::bridge::{device_bytes, tool_bytes, DropCounter, ToolBytes};
use serial_tether::buffer::RingBuffer;
use serial_tether::control::list_devices;
use serial_tether::lock::{LockHold, WriterLock};
use serial_tether::serial::{DataBits, FlowControl, Parity, SerialConfig, StopBits};
use serial_tether::startup::{
    check_listeners, check_specs, choose_token, default_link, derive_device_id, device_config,
    enumerate_reachable_ips, initial_state, parse_defaults, parse_device_spec, random_token,
    resolve_socket, InterfaceAddr, SerialDefaults, SpecError,
};
use serial_tether::state::{ConsolePersonality, Device};

#[test]
fn ids_are_derived_from_paths() {
    assert_eq!(derive_device_id("/dev/ttyUSB0"), "ttyUSB0");
    assert_eq!(derive_device_id("/dev/tty.usbserial-1"), "usbserial-1");
    assert_eq!(derive_device_id("/dev/cu.usbserial-1"), "usbserial-1");
    assert_eq!(derive_device_id("/dev/tty.cu.x"), "cu.x");
    assert_eq!(derive_device_id("plain"), "plain");
    assert_eq!(derive_device_id("/dev/pts/3/"), "3");
    assert_eq!(derive_device_id("/dev/x/."), "x");
    assert_eq!(derive_device_id(".."), "..");
    assert_eq!(derive_device_id("/"), "/");
    assert_eq!(derive_device_id(""), "");
}

#[test]
fn specs_in_all_forms() {
    let s = parse_device_spec("/dev/ttyUSB0").unwrap();
    assert_eq!((s.id.as_str(), s.path.as_str()), ("ttyUSB0", "/dev/ttyUSB0"));
    assert_eq!(s.console.shell, "posix");
    assert!(s.baud.is_none() && s.pty.is_none() && s.console.newline.is_none());
    let s = parse_device_spec(
        "board0=/dev/ttyUSB0,baud=921600,parity=odd,data-bits=7,stop_bits=2,flow-control=hard",
    )
    .unwrap();
    assert_eq!(s.id, "board0");
    assert_eq!(s.baud, Some(921600));
    assert_eq!(s.data_bits, Some(7));
    assert_eq!(s.stop_bits, Some(2));
    assert_eq!(s.parity.as_deref(), Some("odd"));
    assert_eq!(s.flow_control.as_deref(), Some("hard"));
    let s = parse_device_spec("/dev/x, baud =+9600").unwrap();
    assert_eq!((s.id.as_str(), s.baud), ("x", Some(9600)));
}

#[test]
fn specs_carry_the_console_personality() {
    let s = parse_device_spec("board=/dev/ttyUSB0,shell=uboot,prompt==> ").unwrap();
    assert_eq!(s.console.shell, "uboot");
    assert_eq!(s.console.prompt.as_deref(), Some("=> "));
    assert_eq!(s.console.newline.as_deref(), Some("cr"));
    let s = parse_device_spec("b=/dev/x,newline=lf,shell=uboot").unwrap();
    assert_eq!(s.console.newline.as_deref(), Some("lf"));
    let s = parse_device_spec("b=/dev/x,pty").unwrap();
    assert_eq!(s.pty.as_deref(), Some("/tmp/tether-b.pty"));
    let s = parse_device_spec("b=/dev/x,pty=/tmp/my").unwrap();
    assert_eq!(s.pty.as_deref(), Some("/tmp/my"));
    assert_eq!(default_link("a35"), "/tmp/tether-a35.pty");
}

#[test]
fn bad_specs_are_explained() {
    let why = |s: &str| parse_device_spec(s).unwrap_err().message();
    assert_eq!(why("=/dev/x"), "empty id in -D spec \"=/dev/x\"");
    assert_eq!(why("a="), "empty path in -D spec \"a=\"");
    assert_eq!(why("/dev/x,oops"), "expected key=value, got \"oops\" in -D spec");
    assert_eq!(why("/dev/x,baud=fast"), "invalid baud \"fast\" in -D spec");
    assert_eq!(why("/dev/x,baud=4294967296"), "invalid baud \"4294967296\" in -D spec");
    assert_eq!(why("/dev/x,data-bits=256"), "invalid data-bits \"256\"");
    assert_eq!(why("/dev/x,stop-bits="), "invalid stop-bits \"\"");
    assert_eq!(why("/dev/x,color=red"), "unknown key \"color\" in -D spec \"/dev/x,color=red\"");
    assert!(why("/dev/x,shell=fish").starts_with("invalid shell \"fish\""));
    assert!(why("/dev/x,newline=cc").starts_with("invalid newline \"cc\""));
}

#[test]
fn configuration_from_spec_and_defaults() {
    let d = parse_defaults(9600, 7, "even", 2, "software").unwrap();
    let s = parse_device_spec("a=/dev/x,parity=none").unwrap();
    let c = device_config(&s, &d).unwrap();
    assert_eq!(c.path, "/dev/x");
    assert_eq!(c.baud, 9600);
    assert_eq!(c.data_bits, DataBits::Seven);
    assert_eq!(c.parity, Parity::Disabled);
    assert_eq!(c.stop_bits, StopBits::Two);
    assert_eq!(c.flow_control, FlowControl::Software);
    let bad = |t: &str| device_config(&parse_device_spec(t).unwrap(), &d).unwrap_err().message();
    assert_eq!(bad("a=/dev/x,data-bits=9"), "invalid data-bits 9 in -D \"a\"");
    assert_eq!(bad("a=/dev/x,parity=x"), "invalid parity \"x\" in -D \"a\"");
    assert_eq!(bad("a=/dev/x,stop-bits=3"), "invalid stop-bits 3 in -D \"a\"");
    assert_eq!(bad("a=/dev/x,flow=x"), "invalid flow \"x\" in -D \"a\"");
    let why = |r: Result<SerialDefaults, SpecError>| r.unwrap_err().message();
    assert_eq!(why(parse_defaults(1, 4, "none", 1, "none")), "invalid --data-bits 4");
    assert_eq!(why(parse_defaults(1, 8, "x", 1, "none")), "invalid --parity \"x\"");
    assert_eq!(why(parse_defaults(1, 8, "n", 0, "none")), "invalid --stop-bits 0");
    assert_eq!(why(parse_defaults(1, 8, "n", 1, "x")), "invalid --flow-control \"x\"");
}

#[test]
fn duplicate_ids_are_rejected() {
    let spec = |s: &str| parse_device_spec(s).unwrap();
    assert!(check_specs(&vec![spec("a=/dev/x"), spec("b=/dev/x")]).is_ok());
    assert_eq!(
        check_specs(&vec![spec("a=/dev/x"), spec("b=/dev/y"), spec("a=/dev/z")])
            .unwrap_err()
            .message(),
        "duplicate device id \"a\" — use `id=path` form to disambiguate"
    );
    assert_eq!(
        check_specs(&Vec::new()).unwrap_err().message(),
        "at least one -D / --device must be given"
    );
}

#[test]
fn socket_and_listeners() {
    assert_eq!(resolve_socket(Some("/x"), Some("n")), "/x");
    assert_eq!(resolve_socket(None, Some("n")), "/tmp/tetherd-n.sock");
    assert_eq!(resolve_socket(None, None), "/tmp/tetherd.sock");
    assert!(check_listeners(true, true).is_ok());
    assert!(check_listeners(false, false).is_ok());
    assert!(check_listeners(true, false).unwrap_err().starts_with("--no-uds requires --tcp"));
}

#[test]
fn tokens() {
    let t = random_token();
    assert_eq!(t.len(), 32);
    assert!(t.chars().all(|c| c.is_ascii_hexdigit() && !c.is_ascii_uppercase()));
    assert_ne!(t, random_token());
    assert_eq!(choose_token(false, &Some("x".to_string())), None);
    assert_eq!(choose_token(true, &Some("x".to_string())).as_deref(), Some("x"));
    assert_eq!(choose_token(true, &None).unwrap().len(), 32);
}

fn iface(name: &str, ip: &str, v4: bool, loopback: bool, first_segment: u16) -> InterfaceAddr {
    InterfaceAddr { name: name.to_string(), ip: ip.to_string(), v4, loopback, first_segment }
}

#[test]
fn reachable_addresses() {
    let all = || {
        Some(vec![
            iface("en0", "192.168.1.2", true, false, 0),
            iface("lo0", "127.0.0.1", true, true, 0),
            iface("en0", "fe80::1", false, false, 0xfe80),
            iface("en0", "febf::1", false, false, 0xfebf),
            iface("en0", "fd00::1", false, false, 0xfd00),
            iface("lo0", "::1", false, true, 0),
        ])
    };
    let ips = |v: Vec<(String, Option<String>)>| -> Vec<String> {
        v.into_iter().map(|(ip, _)| ip).collect()
    };
    let r = enumerate_reachable_ips("0.0.0.0", true, true, &all());
    assert_eq!(r[0], ("127.0.0.1".to_string(), Some("lo0".to_string())));
    assert_eq!(ips(r), ["127.0.0.1", "192.168.1.2"]);
    assert_eq!(ips(enumerate_reachable_ips("::", false, true, &all())), ["::1", "fd00::1"]);
    let r = enumerate_reachable_ips("10.0.0.1", true, false, &all());
    assert_eq!(r, vec![("10.0.0.1".to_string(), None)]);
    assert_eq!(enumerate_reachable_ips("0.0.0.0", true, true, &None).len(), 1);
}

fn state_of(ids: &[&str]) -> serial_tether::state::DaemonState {
    let devices = ids
        .iter()
        .map(|id| {
            let cfg = SerialConfig {
                path: format!("/dev/{id}"),
                baud: 115200,
                data_bits: DataBits::Eight,
                parity: Parity::Even,
                stop_bits: StopBits::One,
                flow_control: FlowControl::Disabled,
            };
            Device::new(id.to_string(), 16, cfg, ConsolePersonality::default())
        })
        .collect();
    initial_state(devices, None)
}

#[test]
fn banner_of_a_single_device() {
    let b = Banner {
        devices: list_devices(&state_of(&["a"])),
        buffer_capacity: 65536,
        auth_token: None,
        no_uds: false,
        name: None,
        socket_path: "/tmp/tetherd.sock".to_string(),
        tcp: None,
    };
    assert_eq!(
        banner_lines(&b),
        [
            "",
            "Serial Tether 0.11.0",
            "  device     /dev/a @ 115200 baud",
            "  framing    8E1 flow=none",
            "  buffer     64 KiB",
            "",
            "Listening:",
            "  unix       /tmp/tetherd.sock",
            "",
            "  try:       tether status",
            "",
        ]
    );
}

#[test]
fn banner_with_everything() {
    let b = Banner {
        devices: list_devices(&state_of(&["b", "a"])),
        buffer_capacity: 1024,
        auth_token: Some("tok".to_string()),
        no_uds: false,
        name: Some("lab".to_string()),
        socket_path: "/tmp/tetherd-lab.sock".to_string(),
        tcp: Some(TcpBanner {
            bind: "0.0.0.0:557".to_string(),
            port: 557,
            reachable: vec![
                ("127.0.0.1".to_string(), Some("lo".to_string())),
                ("10.0.0.1".to_string(), None),
            ],
        }),
    };
    assert_eq!(
        banner_lines(&b),
        [
            "",
            "Serial Tether 0.11.0",
            "  devices",
            "    b          /dev/b @ 115200 baud  8E1 flow=none (default)",
            "    a          /dev/a @ 115200 baud  8E1 flow=none",
            "  buffer     1 KiB",
            "  auth       tok",
            "             (clients: --auth-token tok  or  TETHER_AUTH_TOKEN=tok)",
            "",
            "Listening:",
            "  unix       /tmp/tetherd-lab.sock    (name: lab)",
            "  tcp        0.0.0.0:557    (auth required)",
            "               reachable as:",
            "                 tcp://127.0.0.1:557    (lo)",
            "                 tcp://10.0.0.1:557",
            "",
            "  try:       TETHER_AUTH_TOKEN=tok tether -s tcp://<host>:557 status",
            "",
        ]
    );
}

#[test]
fn bridge_backs_off_while_locked() {
    let mut c = DropCounter::new();
    let free = WriterLock::new();
    let run = WriterLock {
        holder: Some(LockHold { session_id: "s".to_string(), exclusive: false }),
    };
    let flash = WriterLock {
        holder: Some(LockHold { session_id: "s".to_string(), exclusive: true }),
    };
    assert_eq!(tool_bytes(&mut c, &flash, 0, 0), ToolBytes::Idle);
    assert_eq!(tool_bytes(&mut c, &free, 5, 0), ToolBytes::Forward);
    assert_eq!(tool_bytes(&mut c, &run, 5, 0), ToolBytes::Forward);
    assert_eq!(tool_bytes(&mut c, &flash, 5, 1000), ToolBytes::Dropped(Some(5)));
    assert_eq!(tool_bytes(&mut c, &flash, 5, 5999), ToolBytes::Dropped(None));
    assert_eq!(tool_bytes(&mut c, &flash, 5, 6000), ToolBytes::Dropped(Some(15)));
}

#[test]
fn bridge_follows_the_ring() {
    let mut ring = RingBuffer::new(4);
    let mut cursor = 0;
    assert!(device_bytes(&ring, &mut cursor).is_empty());
    ring.push(b"ab");
    assert_eq!(device_bytes(&ring, &mut cursor), b"ab");
    ring.push(b"cdefgh");
    assert_eq!(device_bytes(&ring, &mut cursor), b"efgh");
    assert_eq!(cursor, 8);
}
