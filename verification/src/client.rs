//! The `tether` client up to the point where it talks to a daemon: reading its
//! command line, choosing an endpoint and a device, starting a daemon of its
//! own, and explaining what went wrong.

use vstd::prelude::*;
use vstd::string::*;

use crate::error::ErrorCode;
use crate::ids::is_lower_hex;
use crate::message::{DeviceSummary, ListDevicesResult, RpcId};
use crate::startup::random_token;
use crate::text::{
    ascii_lower, cat2, cat3, cat4, cat5, chars_of, dec_i64, dec_u64, decimal, decimal_int,
    ends_with, has_char, has_prefix, has_suffix, lower, opt_view, parse_unsigned, push_line, quoted,
    quoted_text, starts_with, str_eq, string_of, trim, trim_chars, trimmed, unsigned, views,
};

verus! {

// ---------- Outcomes ----------

/// Why the client did not succeed.
#[derive(Debug)]
pub enum CliError {
    Timeout,
    /// `exec` only: the device command ran but returned a non-zero status,
    /// which `tether exec` mirrors as its own exit code (ssh-style).
    RemoteExit(u8),
    /// `exec` only: the command ran, but the device reported no numeric status.
    UnknownStatus,
    DeviceDisconnected,
    BufferOverflow,
    LockContention,
    Unauthorized(String),
    Protocol(String),
    Connection(String),
    /// The command cannot be carried out as it was given.
    Usage(String),
}

impl CliError {
    /// The process exit code.
    pub open spec fn code(&self) -> int {
        match self {
            CliError::Timeout => 124,
            CliError::RemoteExit(n) => *n as int,
            CliError::UnknownStatus => 8,
            CliError::DeviceDisconnected => 4,
            CliError::BufferOverflow => 5,
            CliError::LockContention => 6,
            CliError::Unauthorized(_) => 7,
            CliError::Protocol(_) => 2,
            CliError::Connection(_) => 3,
            CliError::Usage(_) => 1,
        }
    }

    pub fn exit_code(&self) -> (n: u8)
        ensures
            n == self.code(),
    {
        match self {
            CliError::Timeout => 124,
            CliError::RemoteExit(n) => *n,
            CliError::UnknownStatus => 8,
            CliError::DeviceDisconnected => 4,
            CliError::BufferOverflow => 5,
            CliError::LockContention => 6,
            CliError::Unauthorized(_) => 7,
            CliError::Protocol(_) => 2,
            CliError::Connection(_) => 3,
            CliError::Usage(_) => 1,
        }
    }

    /// What is said on stderr before exiting, if anything. A connection message
    /// of several lines speaks for itself.
    pub open spec fn explanation(&self) -> Option<Seq<char>> {
        match self {
            CliError::BufferOverflow => Some(
                "tether: buffer overflow — no match within the search window"@,
            ),
            CliError::LockContention => Some(
                "tether: device is locked by another session (flashing?) — try again after it unlocks"@,
            ),
            CliError::Unauthorized(msg) => Some("tether: unauthorized: "@ + msg@),
            CliError::Protocol(msg) => Some("protocol error: "@ + msg@),
            CliError::Connection(msg) => Some(
                if msg@.contains('\n') {
                    msg@
                } else {
                    "tether: connection error: "@ + msg@
                },
            ),
            CliError::Usage(msg) => Some("tether: "@ + msg@),
            _ => None,
        }
    }

    pub fn explain(&self) -> (s: Option<String>)
        ensures
            opt_view(s) == self.explanation(),
    {
        match self {
            CliError::BufferOverflow => Some(
                "tether: buffer overflow — no match within the search window".to_owned(),
            ),
            CliError::LockContention => Some(
                "tether: device is locked by another session (flashing?) — try again after it unlocks".to_owned(),
            ),
            CliError::Unauthorized(msg) => Some(cat2("tether: unauthorized: ", msg.as_str())),
            CliError::Protocol(msg) => Some(cat2("protocol error: ", msg.as_str())),
            CliError::Connection(msg) => {
                if has_char(msg.as_str(), '\n') {
                    Some(msg.clone())
                } else {
                    Some(cat2("tether: connection error: ", msg.as_str()))
                }
            },
            CliError::Usage(msg) => Some(cat2("tether: ", msg.as_str())),
            _ => None,
        }
    }
}

/// `e` stands for the RPC error `code` with message `msg`.
pub open spec fn is_mapped_error(code: i32, msg: Seq<char>, e: CliError) -> bool {
    if code == ErrorCode::Timeout.number() {
        e is Timeout
    } else if code == ErrorCode::DeviceDisconnected.number() {
        e is DeviceDisconnected
    } else if code == ErrorCode::BufferOverflow.number() {
        e is BufferOverflow
    } else if code == ErrorCode::LockContention.number() {
        e is LockContention
    } else if code == ErrorCode::Unauthorized.number() {
        e matches CliError::Unauthorized(m) && m@ == msg
    } else {
        e matches CliError::Protocol(m) && m@ == "rpc "@ + decimal_int(code as int) + ": "@ + msg
    }
}

pub fn map_rpc_error(code: i32, msg: &str) -> (e: CliError)
    ensures
        is_mapped_error(code, msg@, e),
{
    if code == ErrorCode::Timeout.as_i32() {
        CliError::Timeout
    } else if code == ErrorCode::DeviceDisconnected.as_i32() {
        CliError::DeviceDisconnected
    } else if code == ErrorCode::BufferOverflow.as_i32() {
        CliError::BufferOverflow
    } else if code == ErrorCode::LockContention.as_i32() {
        CliError::LockContention
    } else if code == ErrorCode::Unauthorized.as_i32() {
        CliError::Unauthorized(msg.to_owned())
    } else {
        CliError::Protocol(cat4("rpc ", dec_i64(code as i64).as_str(), ": ", msg))
    }
}

/// An RPC error never looks like success, and the errors that scripts tell
/// apart have exit codes of their own.
pub proof fn law_rpc_errors_have_their_exit_codes(code: i32, msg: Seq<char>, e: CliError)
    requires
        is_mapped_error(code, msg, e),
    ensures
        e.code() != 0,
        e.code() == 124 <==> code == ErrorCode::Timeout.number(),
        e.code() == 4 <==> code == ErrorCode::DeviceDisconnected.number(),
        e.code() == 5 <==> code == ErrorCode::BufferOverflow.number(),
        e.code() == 6 <==> code == ErrorCode::LockContention.number(),
        e.code() == 7 <==> code == ErrorCode::Unauthorized.number(),
{
}

// ---------- Command line ----------

/// The text reads like a path.
pub open spec fn looks_like_path(s: Seq<char>) -> bool {
    s.contains('/') || starts_with(s, "~"@)
}

/// The arguments are `<program> <path> ...` without a `-D` further on.
pub open spec fn is_path_shorthand(args: Seq<Seq<char>>) -> bool {
    &&& args.len() >= 2
    &&& !starts_with(args[1], "-"@)
    &&& looks_like_path(args[1])
    &&& forall|i: int|
        2 <= i < args.len() ==> (#[trigger] args[i]) != "-D"@ && args[i] != "--device"@
}

/// Tio-like quick-start sugar: `tether /dev/ttyUSB0` becomes `tether -D
/// /dev/ttyUSB0`. Only the first argument is looked at, and it must contain
/// `/` or start with `~` to count as a path; plain identifiers fall through to
/// normal subcommand parsing.
pub fn rewrite_argv_for_path_shorthand(args: &mut Vec<String>)
    ensures
        views(final(args)@) == (if is_path_shorthand(views(old(args)@)) {
            views(old(args)@).insert(1, "-D"@)
        } else {
            views(old(args)@)
        }),
{
    let ghost all = views(args@);
    if args.len() < 2 {
        return;
    }
    let first = args[1].as_str();
    assert(first@ == all[1]);
    if has_prefix(first, "-") {
        return;
    }
    if !(has_char(first, '/') || has_prefix(first, "~")) {
        return;
    }
    let mut i: usize = 2;
    while i < args.len()
        invariant
            2 <= i <= args@.len(),
            all == views(args@),
            args@ == old(args)@,
            forall|j: int| 2 <= j < i ==> (#[trigger] all[j]) != "-D"@ && all[j] != "--device"@,
        decreases args@.len() - i,
    {
        assert(args@[i as int]@ == all[i as int]);
        if str_eq(args[i].as_str(), "-D") || str_eq(args[i].as_str(), "--device") {
            assert(!is_path_shorthand(all));
            return;
        }
        i = i + 1;
    }
    args.insert(1, "-D".to_owned());
    assert(views(args@) =~= all.insert(1, "-D"@));
}

/// Where the daemon is.
#[derive(Debug, Clone, Copy)]
pub enum Endpoint<'a> {
    Uds(&'a str),
    Tcp(&'a str),
}

/// Parses an endpoint. Recognized forms:
///   /path/to/sock       → UDS
///   tcp://host:port     → TCP
///   tcp:host:port       → TCP
pub fn endpoint_kind(s: &str) -> (e: Endpoint<'_>)
    ensures
        if starts_with(s@, "tcp://"@) {
            e matches Endpoint::Tcp(a) && a@ == s@.skip(6)
        } else if starts_with(s@, "tcp:"@) {
            e matches Endpoint::Tcp(a) && a@ == s@.skip(4)
        } else {
            e matches Endpoint::Uds(p) && p@ == s@
        },
{
    proof {
        reveal_strlit("tcp://");
        reveal_strlit("tcp:");
    }
    let n: usize = s.unicode_len();
    if has_prefix(s, "tcp://") {
        let a = s.substring_char(6, n);
        assert(a@ =~= s@.skip(6));
        Endpoint::Tcp(a)
    } else if has_prefix(s, "tcp:") {
        let a = s.substring_char(4, n);
        assert(a@ =~= s@.skip(4));
        Endpoint::Tcp(a)
    } else {
        Endpoint::Uds(s)
    }
}

/// The value means "on": anything but empty, `0`, `false`, `no` or `off`, in
/// any case and with any surrounding white space.
pub open spec fn is_truthy(v: Seq<char>) -> bool {
    let t = lower(trim(v));
    t != ""@ && t != "0"@ && t != "false"@ && t != "no"@ && t != "off"@
}

/// Whether `TETHER_NONINTERACTIVE`, with the given value, turns prompts off.
pub fn env_forces_noninteractive(value: Option<&str>) -> (b: bool)
    ensures
        b == (value matches Some(v) && is_truthy(v@)),
{
    match value {
        Some(v) => {
            let t = ascii_lower(trimmed(v).as_str());
            let w = t.as_str();
            !(str_eq(w, "") || str_eq(w, "0") || str_eq(w, "false") || str_eq(w, "no") || str_eq(
                w,
                "off",
            ))
        },
        None => false,
    }
}

/// True when it's safe to show an interactive prompt: stdin and stderr are both
/// a terminal AND the caller hasn't opted out. Scripts, pipes, and agents stay
/// non-prompting.
pub fn interactive_allowed(
    no_interactive: bool,
    env_value: Option<&str>,
    stdin_terminal: bool,
    stderr_terminal: bool,
) -> (b: bool)
    ensures
        b == (!no_interactive && !(env_value matches Some(v) && is_truthy(v@)) && stdin_terminal
            && stderr_terminal),
{
    !no_interactive && !env_forces_noninteractive(env_value) && stdin_terminal && stderr_terminal
}

// ---------- Pickers ----------

/// A serial port the convenience picker can offer.
#[derive(Debug)]
pub struct PortChoice {
    pub path: String,
    pub label: String,
}

/// A found port is offered: it is a USB adapter and no dial-in duplicate.
pub open spec fn is_offered(port: (String, Option<String>)) -> bool {
    port.1 is Some && !starts_with(port.0@, "/dev/tty."@)
}

pub open spec fn port_label(path: Seq<char>, desc: Seq<char>) -> Seq<char> {
    if desc.len() == 0 {
        path
    } else {
        path + "  ("@ + desc + ")"@
    }
}

/// The choices among the first `n` ports, as path and label.
pub open spec fn offered(ports: Seq<(String, Option<String>)>, n: int) -> Seq<
    (Seq<char>, Seq<char>),
>
    decreases n,
{
    if n <= 0 {
        Seq::empty()
    } else {
        let before = offered(ports, n - 1);
        let p = ports[n - 1];
        if is_offered(p) {
            before.push((p.0@, port_label(p.0@, p.1.unwrap()@)))
        } else {
            before
        }
    }
}

pub open spec fn choice_views(v: Seq<PortChoice>) -> Seq<(Seq<char>, Seq<char>)> {
    v.map_values(|c: PortChoice| (c.path@, c.label@))
}

/// Filters and labels ports for the picker. Input is `(path, usb_desc)` where
/// `usb_desc` is `Some` only for USB serial adapters. Keeps USB ports, drops
/// macOS dial-in duplicates (`/dev/tty.*`, note the dot — Linux `/dev/ttyUSB0`
/// has none and is kept), and builds a display label.
pub fn select_port_choices(ports: Vec<(String, Option<String>)>) -> (r: Vec<PortChoice>)
    ensures
        choice_views(r@) == offered(ports@, ports@.len() as int),
{
    let mut r: Vec<PortChoice> = Vec::new();
    let mut i: usize = 0;
    assert(choice_views(r@) =~= offered(ports@, 0));
    while i < ports.len()
        invariant
            i <= ports@.len(),
            choice_views(r@) == offered(ports@, i as int),
        decreases ports@.len() - i,
    {
        let ghost before = choice_views(r@);
        let p = &ports[i];
        if let Some(desc) = &p.1 {
            let path = p.0.as_str();
            if !has_prefix(path, "/dev/tty.") {
                let label = if desc.as_str().unicode_len() == 0 {
                    path.to_owned()
                } else {
                    cat4(path, "  (", desc.as_str(), ")")
                };
                r.push(PortChoice { path: path.to_owned(), label });
                assert(choice_views(r@) =~= before.push((p.0@, port_label(p.0@, desc@))));
            }
        }
        i = i + 1;
    }
    r
}

/// What a port's description in the picker is: its product, or else its
/// manufacturer, or else nothing.
pub fn port_description(product: &Option<String>, manufacturer: &Option<String>) -> (d: String)
    ensures
        d@ == (match (product, manufacturer) {
            (Some(p), _) => p@,
            (None, Some(m)) => m@,
            (None, None) => ""@,
        }),
{
    match (product, manufacturer) {
        (Some(p), _) => p.clone(),
        (None, Some(m)) => m.clone(),
        (None, None) => "".to_owned(),
    }
}

/// The numbered lines of a menu.
pub fn menu_lines(title: &str, labels: &Vec<String>) -> (lines: Vec<String>)
    ensures
        views(lines@) == seq![title@] + Seq::new(
            labels@.len(),
            |i: int| "  "@ + decimal((i + 1) as nat) + ") "@ + labels@[i]@,
        ),
{
    let mut lines: Vec<String> = Vec::new();
    push_line(&mut lines, title.to_owned());
    let mut i: usize = 0;
    assert(views(lines@) =~= seq![title@] + Seq::new(
        0,
        |i: int| "  "@ + decimal((i + 1) as nat) + ") "@ + labels@[i]@,
    ));
    while i < labels.len()
        invariant
            i <= labels@.len(),
            views(lines@) == seq![title@] + Seq::new(
                i as nat,
                |i: int| "  "@ + decimal((i + 1) as nat) + ") "@ + labels@[i]@,
            ),
        decreases labels@.len() - i,
    {
        let n = dec_u64(i as u64 + 1);
        push_line(&mut lines, cat4("  ", n.as_str(), ") ", labels[i].as_str()));
        i = i + 1;
        assert(views(lines@) =~= seq![title@] + Seq::new(
            i as nat,
            |i: int| "  "@ + decimal((i + 1) as nat) + ") "@ + labels@[i]@,
        ));
    }
    lines
}

/// The line that asks for a choice.
pub fn menu_prompt(count: usize) -> (s: String)
    ensures
        s@ == "Select [1-"@ + decimal(count as nat) + "] (Enter=1): "@,
{
    cat3("Select [1-", dec_u64(count as u64).as_str(), "] (Enter=1): ")
}

/// The item that a typed answer selects out of `count`: a number from 1 on, or
/// the first for a blank line. Out of nothing, nothing is selected.
pub open spec fn selected(line: Seq<char>, count: nat) -> Option<nat> {
    let s = trim(line);
    if count == 0 {
        None
    } else if s.len() == 0 {
        Some(0)
    } else {
        match unsigned(s, count) {
            Some(n) => if n >= 1 {
                Some((n - 1) as nat)
            } else {
                None
            },
            None => None,
        }
    }
}

/// Reads a typed answer. `None` is an invalid selection.
pub fn pick_index(line: &str, count: usize) -> (r: Option<usize>)
    ensures
        match selected(line@, count as nat) {
            Some(i) => r matches Some(k) && k == i && k < count,
            None => r is None,
        },
{
    if count == 0 {
        return None;
    }
    let chars = chars_of(line);
    let s = trim_chars(chars.as_slice());
    if s.len() == 0 {
        return Some(0);
    }
    match parse_unsigned(s.as_slice(), count as u64) {
        Some(n) => {
            if n >= 1 {
                Some((n - 1) as usize)
            } else {
                None
            }
        },
        None => None,
    }
}

/// The label of a device in the picker.
pub open spec fn device_label(d: DeviceSummary) -> Seq<char> {
    d.id@ + "  ["@ + d.path@ + "]"@ + (if d.connected {
        ""@
    } else {
        "  (disconnected)"@
    })
}

/// Labels for the device picker, where one is needed: not for a single device,
/// which the daemon selects by itself.
pub fn device_picker(l: &ListDevicesResult) -> (labels: Option<Vec<String>>)
    ensures
        labels is Some <==> l.devices@.len() > 1,
        labels matches Some(v) ==> views(v@) == Seq::new(
            l.devices@.len(),
            |i: int| device_label(l.devices@[i]),
        ),
{
    if l.devices.len() <= 1 {
        return None;
    }
    let mut v: Vec<String> = Vec::new();
    let mut i: usize = 0;
    assert(views(v@) =~= Seq::new(0, |i: int| device_label(l.devices@[i])));
    while i < l.devices.len()
        invariant
            i <= l.devices@.len(),
            views(v@) == Seq::new(i as nat, |i: int| device_label(l.devices@[i])),
        decreases l.devices@.len() - i,
    {
        let d = &l.devices[i];
        let mark = if d.connected {
            ""
        } else {
            "  (disconnected)"
        };
        push_line(&mut v, cat5(d.id.as_str(), "  [", d.path.as_str(), "]", mark));
        i = i + 1;
        assert(views(v@) =~= Seq::new(i as nat, |i: int| device_label(l.devices@[i])));
    }
    Some(v)
}

// ---------- Finding or starting a daemon ----------

/// Whether bare `tether` may start a daemon for the session: nothing was
/// pinned on the command line, somebody is there to ask, and no daemon runs.
pub fn may_autostart(
    explicit_endpoint: bool,
    device_given: bool,
    device_id_given: bool,
    interactive: bool,
    daemon_alive: bool,
) -> (b: bool)
    ensures
        b == (!explicit_endpoint && !device_given && !device_id_given && interactive
            && !daemon_alive),
{
    !explicit_endpoint && !device_given && !device_id_given && interactive && !daemon_alive
}

/// What to do about the ports that were found.
#[derive(Debug)]
pub enum AutoStart {
    /// Open this one.
    Open(String),
    /// Ask which.
    Ask,
    Fail(CliError),
}

pub fn autostart(ports: &Vec<PortChoice>) -> (a: AutoStart)
    ensures
        ports@.len() == 0 ==> (a matches AutoStart::Fail(CliError::Connection(m)) && m@
            == no_ports_message()),
        ports@.len() == 1 ==> (a matches AutoStart::Open(p) && p@ == ports@[0].path@),
        ports@.len() > 1 ==> a is Ask,
{
    if ports.len() == 0 {
        AutoStart::Fail(
            CliError::Connection(
                "tether: no USB serial ports found. Plug one in, or name it explicitly:\n  tether /dev/<port>            (one-off session)\n  tetherd -D /dev/<port> -b ...  (long-lived daemon)".to_owned(),
            ),
        )
    } else if ports.len() == 1 {
        AutoStart::Open(ports[0].path.clone())
    } else {
        AutoStart::Ask
    }
}

pub open spec fn no_ports_message() -> Seq<char> {
    "tether: no USB serial ports found. Plug one in, or name it explicitly:\n  tether /dev/<port>            (one-off session)\n  tetherd -D /dev/<port> -b ...  (long-lived daemon)"@
}

/// Nobody picked one of several ports.
pub fn no_port_picked() -> (e: CliError)
    ensures
        e matches CliError::Connection(m) && m@
            == "tether: several serial ports found — pick one explicitly:\n  tether /dev/<port> ..."@,
{
    CliError::Connection(
        "tether: several serial ports found — pick one explicitly:\n  tether /dev/<port> ...".to_owned(),
    )
}

/// Standalone mode works over a local socket only.
pub fn check_standalone(endpoint: &str) -> (r: Result<(), CliError>)
    ensures
        match r {
            Ok(()) => !starts_with(endpoint@, "tcp:"@) && !starts_with(endpoint@, "tcp://"@),
            Err(e) => (starts_with(endpoint@, "tcp:"@) || starts_with(endpoint@, "tcp://"@)) && (
            e matches CliError::Connection(m) && m@
                == "tether: -D and -s tcp://... are mutually exclusive (standalone mode is local UDS only)"@),
        },
{
    match endpoint_kind(endpoint) {
        Endpoint::Tcp(_) => Err(
            CliError::Connection(
                "tether: -D and -s tcp://... are mutually exclusive (standalone mode is local UDS only)".to_owned(),
            ),
        ),
        Endpoint::Uds(_) => Ok(()),
    }
}

/// Whether a file name is that of a daemon's socket.
pub fn is_daemon_socket_name(name: &str) -> (b: bool)
    ensures
        b == (starts_with(name@, "tetherd"@) && ends_with(name@, ".sock"@)),
{
    has_prefix(name, "tetherd") && has_suffix(name, ".sock")
}

/// Device `i` is the first with this path.
pub open spec fn is_first_with_path(devices: Seq<DeviceSummary>, path: Seq<char>, i: int) -> bool {
    &&& 0 <= i < devices.len() && devices[i].path@ == path
    &&& forall|j: int| 0 <= j < i ==> (#[trigger] devices[j]).path@ != path
}

/// The id under which a daemon manages the device with this OS path, matched
/// exactly. A daemon that gives it no id cannot be used.
pub fn managed_device_id(devices: &Vec<DeviceSummary>, target: &str) -> (id: Option<String>)
    ensures
        id matches Some(s) ==> s@.len() > 0 && exists|i: int|
            #[trigger] is_first_with_path(devices@, target@, i) && devices@[i].id@ == s@,
        id is None ==> forall|i: int|
            #[trigger] is_first_with_path(devices@, target@, i) ==> devices@[i].id@.len() == 0,
        opt_view(id) == managed_from(devices@, target@, 0),
{
    let mut i: usize = 0;
    while i < devices.len()
        invariant
            i <= devices@.len(),
            managed_from(devices@, target@, i as int) == managed_from(devices@, target@, 0),
            forall|j: int| 0 <= j < i ==> (#[trigger] devices@[j]).path@ != target@,
        decreases devices@.len() - i,
    {
        if str_eq(devices[i].path.as_str(), target) {
            assert(is_first_with_path(devices@, target@, i as int));
            if devices[i].id.as_str().unicode_len() == 0 {
                assert forall|k: int| #[trigger]
                    is_first_with_path(devices@, target@, k) implies devices@[k].id@.len()
                    == 0 by {
                    if k > i {
                        assert(devices@[i as int].path@ != target@);
                    }
                }
                return None;
            }
            return Some(devices[i].id.clone());
        }
        i = i + 1;
    }
    None
}

/// The id of the first device from `i` on that has this path; none where it is
/// empty.
pub open spec fn managed_from(devices: Seq<DeviceSummary>, path: Seq<char>, i: int) -> Option<
    Seq<char>,
>
    decreases devices.len() - i,
{
    if i >= devices.len() {
        None
    } else if devices[i].path@ == path {
        if devices[i].id@.len() == 0 {
            None
        } else {
            Some(devices[i].id@)
        }
    } else {
        managed_from(devices, path, i + 1)
    }
}

/// What is said when a running daemon already manages the device.
pub fn already_managed_lines(device: &str, socket: &str, device_id: &str) -> (lines: Vec<String>)
    ensures
        views(lines@) == seq![
            "tether: device "@ + device@ + " is already managed by daemon at "@ + socket@
                + " (id: "@ + device_id@ + ")"@,
            "tether: attaching as a client — no new daemon spawned, the existing session keeps running."@,
        ],
{
    let mut first = cat5(
        "tether: device ",
        device,
        " is already managed by daemon at ",
        socket,
        " (id: ",
    );
    first.append(device_id);
    first.append(")");
    let mut lines: Vec<String> = Vec::new();
    push_line(&mut lines, first);
    push_line(
        &mut lines,
        "tether: attaching as a client — no new daemon spawned, the existing session keeps running.".to_owned(),
    );
    assert(views(lines@) =~= seq![
        "tether: device "@ + device@ + " is already managed by daemon at "@ + socket@ + " (id: "@
            + device_id@ + ")"@,
        "tether: attaching as a client — no new daemon spawned, the existing session keeps running."@,
    ]);
    lines
}

/// How a private daemon for this session is reached over the network.
#[derive(Debug)]
pub struct TcpShare {
    pub bind: String,
    pub token: String,
}

/// Decides on sharing the private daemon: where asked for, under the given
/// token or a random one.
pub fn tcp_share(bind: &Option<String>, token: &Option<String>) -> (s: Option<TcpShare>)
    ensures
        s is Some <==> bind is Some,
        s matches Some(x) ==> x.bind@ == bind.unwrap()@ && (token matches Some(t) ==> x.token@
            == t@) && (token is None ==> x.token@.len() == 32
            && forall|i: int| 0 <= i < 32 ==> is_lower_hex(#[trigger] x.token@[i])),
{
    match bind {
        Some(b) => Some(
            TcpShare {
                bind: b.clone(),
                token: match token {
                    Some(t) => t.clone(),
                    None => random_token(),
                },
            },
        ),
        None => None,
    }
}

/// The command line of a private daemon.
pub open spec fn daemon_args(
    device: Seq<char>,
    baud: u32,
    socket: Seq<char>,
    share: Option<TcpShare>,
) -> Seq<Seq<char>> {
    seq!["-D"@, device, "-b"@, decimal(baud as nat), "-s"@, socket] + (match share {
        Some(s) => seq!["--tcp"@, s.bind@, "--auth-token"@, s.token@],
        None => Seq::empty(),
    })
}

pub fn embedded_daemon_args(device: &str, baud: u32, socket: &str, share: &Option<TcpShare>) -> (
args: Vec<String>)
    ensures
        views(args@) == daemon_args(device@, baud, socket@, *share),
{
    let mut args: Vec<String> = Vec::new();
    push_line(&mut args, "-D".to_owned());
    push_line(&mut args, device.to_owned());
    push_line(&mut args, "-b".to_owned());
    push_line(&mut args, dec_u64(baud as u64));
    push_line(&mut args, "-s".to_owned());
    push_line(&mut args, socket.to_owned());
    if let Some(s) = share {
        push_line(&mut args, "--tcp".to_owned());
        push_line(&mut args, s.bind.clone());
        push_line(&mut args, "--auth-token".to_owned());
        push_line(&mut args, s.token.clone());
    }
    assert(views(args@) =~= daemon_args(device@, baud, socket@, *share));
    args
}

/// `/tmp/tether-<pid>-<nonce>` with the given ending, for a private daemon's
/// socket and log.
pub fn private_path(pid: u32, nonce: u32, ending: &str) -> (p: String)
    ensures
        p@ == "/tmp/tether-"@ + decimal(pid as nat) + "-"@ + decimal(nonce as nat) + ending@,
{
    cat5(
        "/tmp/tether-",
        dec_u64(pid as u64).as_str(),
        "-",
        dec_u64(nonce as u64).as_str(),
        ending,
    )
}

/// Where the last `c` stands, plus one; 0 where there is none.
pub open spec fn after_last(s: Seq<char>, c: char) -> nat
    decreases s.len(),
{
    if s.len() == 0 || s.last() == c {
        s.len()
    } else {
        after_last(s.drop_last(), c)
    }
}

/// The `PORT` of `HOST:PORT`; the whole text if there is no `:`.
pub fn port_of(bind: &str) -> (p: String)
    ensures
        p@ == bind@.skip(after_last(bind@, ':') as int),
{
    let chars = chars_of(bind);
    let mut i: usize = chars.len();
    assert(bind@.take(i as int) =~= bind@);
    while i > 0 && chars[i - 1] != ':'
        invariant
            i <= chars@.len(),
            chars@ == bind@,
            after_last(bind@.take(i as int), ':') == after_last(bind@, ':'),
        decreases i,
    {
        assert(bind@.take(i as int).last() == chars@[i - 1]);
        assert(bind@.take(i as int).drop_last() =~= bind@.take(i - 1));
        i = i - 1;
    }
    assert(i > 0 ==> bind@.take(i as int).last() == chars@[i - 1]);
    let rest = vstd::slice::slice_subrange(chars.as_slice(), i, chars.len());
    assert(rest@ =~= bind@.skip(i as int));
    string_of(rest)
}

/// What is told about a shared private daemon before the shell takes over the
/// terminal: remote clients need the token and a reachable endpoint.
pub open spec fn share_text(s: TcpShare) -> Seq<Seq<char>> {
    seq![
        ""@,
        "tether: also listening on tcp://"@ + s.bind@,
        "tether:   auth token: "@ + s.token@,
        "tether:   remote clients:"@,
        "tether:     TETHER_AUTH_TOKEN="@ + s.token@ + " \\"@,
        "tether:       tether -s tcp://<this-host>:"@ + s.bind@.skip(
            after_last(s.bind@, ':') as int,
        ) + " status"@,
        "tether:   (this daemon shuts down when you quit — Ctrl-A Q)"@,
        ""@,
    ]
}

pub fn share_lines(s: &TcpShare) -> (lines: Vec<String>)
    ensures
        views(lines@) == share_text(*s),
{
    let mut lines: Vec<String> = Vec::new();
    push_line(&mut lines, "".to_owned());
    push_line(&mut lines, cat2("tether: also listening on tcp://", s.bind.as_str()));
    push_line(&mut lines, cat2("tether:   auth token: ", s.token.as_str()));
    push_line(&mut lines, "tether:   remote clients:".to_owned());
    push_line(
        &mut lines,
        cat3("tether:     TETHER_AUTH_TOKEN=", s.token.as_str(), " \\"),
    );
    push_line(
        &mut lines,
        cat3(
            "tether:       tether -s tcp://<this-host>:",
            port_of(s.bind.as_str()).as_str(),
            " status",
        ),
    );
    push_line(
        &mut lines,
        "tether:   (this daemon shuts down when you quit — Ctrl-A Q)".to_owned(),
    );
    push_line(&mut lines, "".to_owned());
    assert(views(lines@) =~= share_text(*s));
    lines
}

/// How long a private daemon may take to listen, and how often to look.
pub const EMBEDDED_START_MS: u64 = 5000;

pub const EMBEDDED_POLL_MS: u64 = 50;

/// Where the start of a private daemon stands.
#[derive(Debug, Clone, Copy, PartialEq, Eq, Structural)]
pub enum EmbeddedStep {
    /// It listens.
    Ready,
    /// It ended before it listened.
    Exited,
    /// Look again a little later.
    Poll,
    /// It took too long.
    TimedOut,
}

/// Judges the start of a private daemon after some time: the limit counts
/// first, then that it listens, then that it ended.
pub fn embedded_step(elapsed_ms: u64, bound: bool, exited: bool) -> (s: EmbeddedStep)
    ensures
        s == (if elapsed_ms >= EMBEDDED_START_MS {
            EmbeddedStep::TimedOut
        } else if bound {
            EmbeddedStep::Ready
        } else if exited {
            EmbeddedStep::Exited
        } else {
            EmbeddedStep::Poll
        }),
{
    if elapsed_ms >= EMBEDDED_START_MS {
        EmbeddedStep::TimedOut
    } else if bound {
        EmbeddedStep::Ready
    } else if exited {
        EmbeddedStep::Exited
    } else {
        EmbeddedStep::Poll
    }
}

/// The hint for a `-D` value that is no path.
pub open spec fn hint_text(value: Seq<char>) -> Seq<char> {
    "\n\nhint: `-D "@ + value + "` starts a *new* standalone daemon and opens `"@ + value
        + "` as a device path — which doesn't exist. To select a device named `"@ + value
        + "` on an already-running daemon, use lowercase `-d "@ + value + "` instead."@
}

/// When `-D <VALUE>` failed and `VALUE` doesn't look like a device path (no
/// `/`, and nothing by that name on disk), the most likely mistake is
/// uppercase `-D` where lowercase `-d` was meant. Returns a hint to splice into
/// the error, or an empty string when `VALUE` really is a path.
pub fn dash_d_hint(value: &str, exists_on_disk: bool) -> (s: String)
    ensures
        s@ == (if value@.contains('/') || exists_on_disk {
            ""@
        } else {
            hint_text(value@)
        }),
{
    if has_char(value, '/') || exists_on_disk {
        return "".to_owned();
    }
    let mut s = cat5(
        "\n\nhint: `-D ",
        value,
        "` starts a *new* standalone daemon and opens `",
        value,
        "` as a device path — which doesn't exist. To select a device named `",
    );
    s.append(value);
    s.append("` on an already-running daemon, use lowercase `-d ");
    s.append(value);
    s.append("` instead.");
    s
}

/// A private daemon ended before it listened; its log says why.
pub fn embedded_exited(status: &str, hint: &str, log: &str) -> (e: CliError)
    ensures
        e matches CliError::Connection(m) && m@ == "tether: embedded tetherd exited (status "@
            + status@ + ") before binding socket"@ + hint@ + "\n\n"@ + log@,
{
    let mut s = cat4(
        "tether: embedded tetherd exited (status ",
        status,
        ") before binding socket",
        hint,
    );
    s.append("\n\n");
    s.append(log);
    CliError::Connection(s)
}

/// A private daemon did not listen in time; its socket's path is given in
/// quotes.
pub fn embedded_timed_out(quoted_socket: &str) -> (e: CliError)
    ensures
        e matches CliError::Connection(m) && m@ == "tether: embedded tetherd did not bind "@
            + quoted_socket@ + " within 5s"@,
{
    CliError::Connection(
        cat3("tether: embedded tetherd did not bind ", quoted_socket, " within 5s"),
    )
}

/// The same for a socket's path.
pub fn embedded_not_bound(socket: &str) -> (e: CliError)
    ensures
        e matches CliError::Connection(m) && m@ == "tether: embedded tetherd did not bind "@
            + quoted_text(socket@) + " within 5s"@,
{
    embedded_timed_out(quoted(socket).as_str())
}

// ---------- Connection errors ----------

/// Why the local socket could not be dialed.
#[derive(Debug, Clone, Copy, PartialEq, Eq, Structural)]
pub enum DialFault {
    NotFound,
    Refused,
    Other,
}

/// The advice for a local socket that cannot be dialed.
pub open spec fn uds_advice(path: Seq<char>, cause: Seq<char>) -> Seq<char> {
    "tether: cannot connect to "@ + path + " — "@ + cause
        + "\n\nFor one-off use, just give the device path — no daemon needed:\n\n  tether /dev/tty.usbserial-XXXX\n\nFor long-lived multi-client use, start a daemon first:\n\n  tetherd -D /dev/tty.usbserial-XXXX -b 115200\n\nOr expose it for remote agents:\n\n  tetherd -D /dev/tty.usbserial-XXXX -b 115200 --tcp\n\n(Run `tetherd --help` for all options.)"@
}

/// Builds a friendly multi-line error when the local Unix socket can't be
/// dialed — the most common cause is "the daemon hasn't been started yet".
pub fn make_uds_connect_error(path: &str, fault: DialFault, cause: &str) -> (e: CliError)
    ensures
        e matches CliError::Connection(m) && m@ == (match fault {
            DialFault::NotFound => uds_advice(
                path@,
                "socket file does not exist (daemon not running?)"@,
            ),
            DialFault::Refused => uds_advice(
                path@,
                "connection refused (stale socket from a crashed daemon?)"@,
            ),
            DialFault::Other => "connect "@ + path@ + ": "@ + cause@,
        }),
{
    let why = match fault {
        DialFault::NotFound => "socket file does not exist (daemon not running?)",
        DialFault::Refused => "connection refused (stale socket from a crashed daemon?)",
        DialFault::Other => {
            return CliError::Connection(cat4("connect ", path, ": ", cause));
        },
    };
    CliError::Connection(
        cat5(
            "tether: cannot connect to ",
            path,
            " — ",
            why,
            "\n\nFor one-off use, just give the device path — no daemon needed:\n\n  tether /dev/tty.usbserial-XXXX\n\nFor long-lived multi-client use, start a daemon first:\n\n  tetherd -D /dev/tty.usbserial-XXXX -b 115200\n\nOr expose it for remote agents:\n\n  tetherd -D /dev/tty.usbserial-XXXX -b 115200 --tcp\n\n(Run `tetherd --help` for all options.)",
        ),
    )
}

/// The same for a remote daemon.
pub fn make_tcp_connect_error(addr: &str, cause: &str) -> (e: CliError)
    ensures
        e matches CliError::Connection(m) && m@ == "tether: cannot connect to tcp://"@ + addr@
            + " — "@ + cause@
            + "\n\nCheck that the daemon is running on the remote host with:\n\n  tetherd -D /dev/tty.usbserial-XXXX -b 115200 --tcp\n\nIf a firewall is in the way, ensure the port is open.\nFor TCP, set TETHER_AUTH_TOKEN or pass --auth-token."@,
{
    CliError::Connection(
        cat5(
            "tether: cannot connect to tcp://",
            addr,
            " — ",
            cause,
            "\n\nCheck that the daemon is running on the remote host with:\n\n  tetherd -D /dev/tty.usbserial-XXXX -b 115200 --tcp\n\nIf a firewall is in the way, ensure the port is open.\nFor TCP, set TETHER_AUTH_TOKEN or pass --auth-token.",
        ),
    )
}

// ---------- Calls ----------

/// Whether a response answers the request with number `id`.
pub fn answers(response_id: &RpcId, id: i64) -> (b: bool)
    ensures
        b == (response_id matches RpcId::Number(n) && n == id),
{
    match response_id {
        RpcId::Number(n) => *n == id,
        RpcId::Text(_) => false,
    }
}

/// What to do after a call failed, given the caller's wish to ride out a
/// disconnect. The `reconnect` method itself is never retried.
pub fn should_reconnect(auto_reconnect: bool, method: &str, failure: &CliError) -> (b: bool)
    ensures
        b == (auto_reconnect && method@ != "reconnect"@ && failure is DeviceDisconnected),
{
    let gone: bool = match failure {
        CliError::DeviceDisconnected => true,
        _ => false,
    };
    auto_reconnect && !str_eq(method, "reconnect") && gone
}

/// How a `reconnect` on the caller's behalf went.
#[derive(Debug, Clone, Copy, PartialEq, Eq, Structural)]
pub enum Recovery {
    /// The device is back.
    Back,
    /// It is still gone.
    StillGone,
    /// The call itself failed.
    CallFailed,
}

/// What becomes of the call then.
#[derive(Debug, Clone, Copy, PartialEq, Eq, Structural)]
pub enum AfterRecovery {
    /// Make the call once more; its outcome counts.
    Retry,
    /// Fail as disconnected.
    Disconnected,
    /// Fail as the first call did.
    FirstFailure,
}

pub fn after_recovery(r: Recovery) -> (a: AfterRecovery)
    ensures
        a is Retry <==> r is Back,
        a is Disconnected <==> r is StillGone,
        a is FirstFailure <==> r is CallFailed,
{
    match r {
        Recovery::Back => AfterRecovery::Retry,
        Recovery::StillGone => AfterRecovery::Disconnected,
        Recovery::CallFailed => AfterRecovery::FirstFailure,
    }
}

/// How long the client waits for any response, in seconds.
pub const RPC_TIMEOUT_SECS: u64 = 120;

/// How long a `reconnect` on the caller's behalf may take.
pub const RECOVERY_TIMEOUT_MS: u32 = 10000;

} // verus!
