//! The `tether` subcommands: which calls each one makes, with which
//! parameters, and how its outcome is reported.

use vstd::prelude::*;
use vstd::slice::*;
use vstd::string::*;
use vstd::utf8::*;

use crate::client::CliError;
use crate::conn::Method;
use crate::encoding::{b64_decode_raw, b64_encode, base64_bytes, carries};
use crate::handlers::{bytes_to_send, SERVER_VERSION};
use crate::message::{
    duplicate_sessions, AttachParams, ClientInfo, DeviceStatus, DeviceTarget, ExpectParams, HelloParams,
    ReconnectParams, ReplaySpec, RunParams, SendBreakParams, SendParams, SetDeviceParams,
    SetLineParams, StatusResult, UntilSpec, PROTOCOL_VERSION,
};
use crate::text::{
    all_chars, cat2, cat3, cat4, cat5, chars_of, clone_opt, dec_u64, decimal, lossy, lossy_text,
    opt_view, quoted, quoted_text, split, split_chars, str_eq, string_of, trim, trim_chars,
};

verus! {

/// A subcommand with its arguments.
#[derive(Debug)]
pub enum Cmd {
    Shell { from: String },
    Tail { from: String },
    Sync { idle_ms: u32, timeout_ms: u32 },
    Send { data: String, base64: bool, newline: String },
    Expect {
        pattern: String,
        timeout_ms: u32,
        literal: bool,
        strip_ansi: bool,
        max_output_bytes: u64,
    },
    Run(RunArgs),
    Exec(ExecArgs),
    Status,
    ListDevices,
    Ports,
    Agents,
    Config(ConfigArgs),
    Break { duration_ms: u32 },
    Dtr { state: String },
    Rts { state: String },
    Lines,
    Reconnect { nowait: bool, timeout_ms: u32 },
    Disconnect,
    Connect,
}

#[derive(Debug)]
pub struct RunArgs {
    pub data: String,
    /// Pattern that ends the wait; the device's prompt where omitted.
    pub until: Option<String>,
    pub timeout_ms: u32,
    pub literal: bool,
    pub strip_ansi: bool,
    pub strip_echo: bool,
    pub max_output_bytes: u64,
    pub preempt: String,
    /// Line terminator; the device's where omitted.
    pub newline: Option<String>,
}

#[derive(Debug)]
pub struct ExecArgs {
    pub data: String,
    pub timeout_ms: u32,
    pub strip_ansi: bool,
    pub max_output_bytes: u64,
    pub preempt: String,
    /// Line terminator; the device's where omitted.
    pub newline: Option<String>,
}

#[derive(Debug)]
pub struct ConfigArgs {
    pub baud: Option<u32>,
    pub data_bits: Option<u8>,
    pub parity: Option<String>,
    pub stop_bits: Option<u8>,
    pub flow_control: Option<String>,
}

impl ConfigArgs {
    pub open spec fn changes_nothing(&self) -> bool {
        self.baud is None && self.data_bits is None && self.parity is None && self.stop_bits is None
            && self.flow_control is None
    }
}

/// What runs when no subcommand is given: the shell, on new output.
pub fn default_command() -> (c: Cmd)
    ensures
        c matches Cmd::Shell { from } && from@ == "now"@,
{
    Cmd::Shell { from: "now".to_owned() }
}

/// Commands that don't target a specific device (so the multi-device picker
/// shouldn't fire for them) are the inspection ones.
pub fn command_needs_device(cmd: &Cmd) -> (b: bool)
    ensures
        b == !(cmd is Status || cmd is ListDevices || cmd is Ports || cmd is Agents),
{
    match cmd {
        Cmd::Status | Cmd::ListDevices | Cmd::Ports | Cmd::Agents => false,
        _ => true,
    }
}

// ---------- Greeting and attaching ----------

/// The greeting of a client with this name.
pub fn hello_params(name: &str, auth_token: &Option<String>) -> (p: HelloParams)
    ensures
        p.protocol_version@ == PROTOCOL_VERSION@,
        p.client.name@ == name@,
        p.client.version@ == SERVER_VERSION@,
        p.client.kind@ == "agent"@,
        opt_view(p.auth_token) == opt_view(*auth_token),
{
    HelloParams {
        protocol_version: PROTOCOL_VERSION.to_owned(),
        client: ClientInfo {
            name: name.to_owned(),
            version: SERVER_VERSION.to_owned(),
            kind: "agent".to_owned(),
        },
        auth_token: clone_opt(auth_token),
    }
}

/// The request for a session that starts at `replay`.
pub fn attach_params(replay: &str, device_id: &Option<String>) -> (p: AttachParams)
    ensures
        p.session_id is None,
        p.mode@ == "rw"@,
        p.replay matches ReplaySpec::Named(s) && s@ == replay@,
        opt_view(p.label) == Some("tether"@),
        p.flow_control@ == "drop_oldest"@,
        opt_view(p.device_id) == opt_view(*device_id),
{
    AttachParams {
        session_id: None,
        mode: "rw".to_owned(),
        replay: ReplaySpec::Named(replay.to_owned()),
        label: Some("tether".to_owned()),
        flow_control: "drop_oldest".to_owned(),
        device_id: clone_opt(device_id),
    }
}

/// Where the session of a command starts to read; none for commands that need
/// no session.
pub open spec fn replay_of(cmd: Cmd) -> Option<Seq<char>> {
    match cmd {
        Cmd::Shell { from } => Some(from@),
        Cmd::Tail { from } => Some(from@),
        Cmd::Sync { .. } => Some("now"@),
        Cmd::Send { .. } => Some("now"@),
        Cmd::Expect { .. } => Some("now"@),
        Cmd::Run(_) => Some("now"@),
        Cmd::Exec(_) => Some("now"@),
        _ => None,
    }
}

pub fn session_replay(cmd: &Cmd) -> (r: Option<String>)
    ensures
        opt_view(r) == replay_of(*cmd),
{
    match cmd {
        Cmd::Shell { from } => Some(from.clone()),
        Cmd::Tail { from } => Some(from.clone()),
        Cmd::Sync { .. } => Some("now".to_owned()),
        Cmd::Send { .. } => Some("now".to_owned()),
        Cmd::Expect { .. } => Some("now".to_owned()),
        Cmd::Run(_) => Some("now".to_owned()),
        Cmd::Exec(_) => Some("now".to_owned()),
        _ => None,
    }
}

/// Whether a command depends on the device's console personality, and so needs
/// a `status` first: how to submit a line, and what prompt to wait for.
pub fn needs_personality(cmd: &Cmd) -> (b: bool)
    ensures
        b == (match *cmd {
            Cmd::Exec(_) => true,
            Cmd::Run(_) => true,
            _ => false,
        }),
{
    match cmd {
        Cmd::Exec(_) => true,
        Cmd::Run(_) => true,
        _ => false,
    }
}

// ---------- Commands that are one call ----------

/// A call that needs no session.
#[derive(Debug)]
pub enum DeviceCall {
    Status,
    ListPorts,
    ListDevices,
    SetDevice(SetDeviceParams),
    Reconnect(ReconnectParams),
    SendBreak(SendBreakParams),
    SetDtr(SetLineParams),
    SetRts(SetLineParams),
    ReadModemStatus(DeviceTarget),
    Disconnect(DeviceTarget),
    Connect(DeviceTarget),
}

impl DeviceCall {
    pub fn method(&self) -> (m: Method)
        ensures
            m == (match self {
                DeviceCall::Status => Method::Status,
                DeviceCall::ListPorts => Method::ListPorts,
                DeviceCall::ListDevices => Method::ListDevices,
                DeviceCall::SetDevice(_) => Method::SetDevice,
                DeviceCall::Reconnect(_) => Method::Reconnect,
                DeviceCall::SendBreak(_) => Method::SendBreak,
                DeviceCall::SetDtr(_) => Method::SetDtr,
                DeviceCall::SetRts(_) => Method::SetRts,
                DeviceCall::ReadModemStatus(_) => Method::ReadModemStatus,
                DeviceCall::Disconnect(_) => Method::DisconnectDevice,
                DeviceCall::Connect(_) => Method::ConnectDevice,
            }),
    {
        match self {
            DeviceCall::Status => Method::Status,
            DeviceCall::ListPorts => Method::ListPorts,
            DeviceCall::ListDevices => Method::ListDevices,
            DeviceCall::SetDevice(_) => Method::SetDevice,
            DeviceCall::Reconnect(_) => Method::Reconnect,
            DeviceCall::SendBreak(_) => Method::SendBreak,
            DeviceCall::SetDtr(_) => Method::SetDtr,
            DeviceCall::SetRts(_) => Method::SetRts,
            DeviceCall::ReadModemStatus(_) => Method::ReadModemStatus,
            DeviceCall::Disconnect(_) => Method::DisconnectDevice,
            DeviceCall::Connect(_) => Method::ConnectDevice,
        }
    }
}

/// `call` is what a command comes down to on the given device.
pub open spec fn is_device_call(cmd: Cmd, id: Option<Seq<char>>, call: DeviceCall) -> bool {
    match cmd {
        Cmd::Status => call is Status,
        Cmd::ListDevices => call is ListDevices,
        Cmd::Ports => call is ListPorts,
        Cmd::Config(a) => if a.changes_nothing() {
            call is Status
        } else {
            call matches DeviceCall::SetDevice(p) && {
                &&& opt_view(p.device_id) == id
                &&& p.baud == a.baud
                &&& p.data_bits == a.data_bits
                &&& p.parity == a.parity
                &&& p.stop_bits == a.stop_bits
                &&& p.flow_control == a.flow_control
            }
        },
        Cmd::Break { duration_ms } => call matches DeviceCall::SendBreak(p) && opt_view(
            p.device_id,
        ) == id && p.duration_ms == duration_ms,
        Cmd::Dtr { state } => call matches DeviceCall::SetDtr(p) && opt_view(p.device_id) == id
            && p.on == (state@ == "on"@),
        Cmd::Rts { state } => call matches DeviceCall::SetRts(p) && opt_view(p.device_id) == id
            && p.on == (state@ == "on"@),
        Cmd::Lines => call matches DeviceCall::ReadModemStatus(p) && opt_view(p.device_id) == id,
        Cmd::Reconnect { nowait, timeout_ms } => call matches DeviceCall::Reconnect(p) && opt_view(
            p.device_id,
        ) == id && p.wait == !nowait && p.timeout_ms == timeout_ms,
        Cmd::Disconnect => call matches DeviceCall::Disconnect(p) && opt_view(p.device_id) == id,
        Cmd::Connect => call matches DeviceCall::Connect(p) && opt_view(p.device_id) == id,
        _ => false,
    }
}

/// The call that a command comes down to, if it needs no session.
pub fn device_call(cmd: &Cmd, device_id: &Option<String>) -> (c: Option<DeviceCall>)
    ensures
        c is None <==> replay_of(*cmd) is Some || cmd is Agents,
        c matches Some(call) ==> is_device_call(*cmd, opt_view(*device_id), call),
{
    match cmd {
        Cmd::Status => Some(DeviceCall::Status),
        Cmd::ListDevices => Some(DeviceCall::ListDevices),
        Cmd::Ports => Some(DeviceCall::ListPorts),
        Cmd::Config(a) => {
            if a.baud.is_none() && a.data_bits.is_none() && a.parity.is_none()
                && a.stop_bits.is_none() && a.flow_control.is_none() {
                Some(DeviceCall::Status)
            } else {
                Some(
                    DeviceCall::SetDevice(
                        SetDeviceParams {
                            device_id: clone_opt(device_id),
                            baud: a.baud,
                            data_bits: a.data_bits,
                            parity: clone_opt(&a.parity),
                            stop_bits: a.stop_bits,
                            flow_control: clone_opt(&a.flow_control),
                        },
                    ),
                )
            }
        },
        Cmd::Break { duration_ms } => Some(
            DeviceCall::SendBreak(
                SendBreakParams { device_id: clone_opt(device_id), duration_ms: *duration_ms },
            ),
        ),
        Cmd::Dtr { state } => Some(
            DeviceCall::SetDtr(
                SetLineParams {
                    device_id: clone_opt(device_id),
                    on: str_eq(state.as_str(), "on"),
                },
            ),
        ),
        Cmd::Rts { state } => Some(
            DeviceCall::SetRts(
                SetLineParams {
                    device_id: clone_opt(device_id),
                    on: str_eq(state.as_str(), "on"),
                },
            ),
        ),
        Cmd::Lines => Some(
            DeviceCall::ReadModemStatus(DeviceTarget { device_id: clone_opt(device_id) }),
        ),
        Cmd::Reconnect { nowait, timeout_ms } => Some(
            DeviceCall::Reconnect(
                ReconnectParams {
                    device_id: clone_opt(device_id),
                    wait: !*nowait,
                    timeout_ms: *timeout_ms,
                },
            ),
        ),
        Cmd::Disconnect => Some(
            DeviceCall::Disconnect(DeviceTarget { device_id: clone_opt(device_id) }),
        ),
        Cmd::Connect => Some(
            DeviceCall::Connect(DeviceTarget { device_id: clone_opt(device_id) }),
        ),
        _ => None,
    }
}

// ---------- Commands on a session ----------

/// The terminator that a name stands for; unknown names stand for none.
pub open spec fn terminator(kind: Seq<char>) -> Seq<char> {
    if kind == "lf"@ {
        "\n"@
    } else if kind == "cr"@ {
        "\r"@
    } else if kind == "crlf"@ {
        "\r\n"@
    } else {
        ""@
    }
}

/// Appends a line terminator if requested.
pub fn apply_newline(data: &str, kind: &str) -> (s: String)
    ensures
        s@ == data@ + terminator(kind@),
{
    if str_eq(kind, "lf") {
        cat2(data, "\n")
    } else if str_eq(kind, "cr") {
        cat2(data, "\r")
    } else if str_eq(kind, "crlf") {
        cat2(data, "\r\n")
    } else {
        cat2(data, "")
    }
}

/// The parameters of `tether send`.
pub fn send_params(session_id: &str, data: &str, is_base64: bool, newline: &str) -> (p: SendParams)
    ensures
        p.session_id@ == session_id@,
        opt_view(p.data) == (if is_base64 {
            Some(data@)
        } else {
            None
        }),
        opt_view(p.data_text) == (if is_base64 {
            None
        } else {
            Some(data@ + terminator(newline@))
        }),
        !p.eat_echo,
{
    SendParams {
        session_id: session_id.to_owned(),
        data: if is_base64 {
            Some(data.to_owned())
        } else {
            None
        },
        data_text: if is_base64 {
            None
        } else {
            Some(apply_newline(data, newline))
        },
        eat_echo: false,
    }
}

/// The parameters that send typed bytes as they are: what goes out as base64
/// is read back as the same bytes.
pub fn typed_params(session_id: &str, bytes: &[u8]) -> (p: SendParams)
    ensures
        p.session_id@ == session_id@,
        p.data matches Some(d) && carries(d@, bytes@),
        p.data_text is None,
        !p.eat_echo,
{
    SendParams {
        session_id: session_id.to_owned(),
        data: Some(b64_encode(bytes)),
        data_text: None,
        eat_echo: false,
    }
}

/// What is typed is what the daemon writes to the port: the bytes it reads out
/// of the parameters are the bytes that were put in.
pub proof fn law_typed_bytes_are_sent(p: SendParams, bytes: Seq<u8>)
    requires
        p.data matches Some(d) && carries(d@, bytes),
    ensures
        bytes_to_send(opt_view(p.data), opt_view(p.data_text)) == Ok::<Seq<u8>, Seq<char>>(bytes),
{
}

/// The parameters of `tether expect`.
pub fn expect_params(
    session_id: &str,
    pattern: &str,
    timeout_ms: u32,
    literal: bool,
    strip_ansi: bool,
    max_output_bytes: u64,
) -> (p: ExpectParams)
    ensures
        p.session_id@ == session_id@,
        p.pattern@ == pattern@,
        p.regex == !literal,
        p.timeout_ms == Some(timeout_ms),
        p.strip_ansi == strip_ansi,
        p.strip_echo is None,
        p.from_seq is None,
        p.max_bytes is None,
        p.max_output_bytes == Some(max_output_bytes),
{
    ExpectParams {
        session_id: session_id.to_owned(),
        pattern: pattern.to_owned(),
        regex: !literal,
        timeout_ms: Some(timeout_ms),
        strip_ansi,
        strip_echo: None,
        from_seq: None,
        max_bytes: None,
        max_output_bytes: Some(max_output_bytes),
    }
}

/// The pattern that ends a `run`: the one given, or else the device's prompt.
/// It is never guessed.
pub fn run_until(given: &Option<String>, prompt: &Option<String>) -> (r: Result<String, CliError>)
    ensures
        match (given, prompt) {
            (Some(u), _) => r matches Ok(s) && s@ == u@,
            (None, Some(p)) => r matches Ok(s) && s@ == p@,
            (None, None) => r matches Err(CliError::Usage(m)) && m@
                == "run needs a --until/-u pattern (none given and the device has no prompt= configured). e.g. tether ... run \"<data>\" -u \"<prompt-regex>\" or set prompt= on the device"@,
        },
{
    match (given, prompt) {
        (Some(u), _) => Ok(u.clone()),
        (None, Some(p)) => Ok(p.clone()),
        (None, None) => Err(
            CliError::Usage(
                "run needs a --until/-u pattern (none given and the device has no prompt= configured). e.g. tether ... run \"<data>\" -u \"<prompt-regex>\" or set prompt= on the device".to_owned(),
            ),
        ),
    }
}

/// The terminator of a `run`: always `cr` for U-Boot, whose line editor runs a
/// command twice on CR LF; else the one given, or the device's, or none.
pub open spec fn run_terminator(
    shell: Seq<char>,
    given: Option<Seq<char>>,
    device: Option<Seq<char>>,
) -> Seq<char> {
    if shell == "uboot"@ {
        "cr"@
    } else {
        match (given, device) {
            (Some(n), _) => n,
            (None, Some(n)) => n,
            (None, None) => "none"@,
        }
    }
}

pub fn run_newline(shell: &str, given: &Option<String>, device: &Option<String>) -> (s: String)
    ensures
        s@ == run_terminator(shell@, opt_view(*given), opt_view(*device)),
{
    if str_eq(shell, "uboot") {
        return "cr".to_owned();
    }
    match (given, device) {
        (Some(n), _) => n.clone(),
        (None, Some(n)) => n.clone(),
        (None, None) => "none".to_owned(),
    }
}

/// The parameters of `tether run`, its pattern and terminator decided.
pub fn run_params(session_id: &str, args: &RunArgs, until: &str, newline: &str) -> (p: RunParams)
    ensures
        p.session_id@ == session_id@,
        p.data is None,
        opt_view(p.data_text) == Some(args.data@ + terminator(newline@)),
        p.until.pattern@ == until@,
        p.until.regex == !args.literal,
        p.until.strip_ansi == args.strip_ansi,
        p.timeout_ms == Some(args.timeout_ms),
        p.preempt@ == args.preempt@,
        p.strip_echo == args.strip_echo,
        p.max_bytes is None,
        p.max_output_bytes == Some(args.max_output_bytes),
{
    RunParams {
        session_id: session_id.to_owned(),
        data: None,
        data_text: Some(apply_newline(args.data.as_str(), newline)),
        until: UntilSpec {
            pattern: until.to_owned(),
            regex: !args.literal,
            strip_ansi: args.strip_ansi,
        },
        timeout_ms: Some(args.timeout_ms),
        preempt: args.preempt.clone(),
        strip_echo: args.strip_echo,
        max_bytes: None,
        max_output_bytes: Some(args.max_output_bytes),
    }
}

/// `tether: timeout after <n>ms waiting for <pattern>`, the pattern in quotes.
pub fn wait_timeout_text(timeout_ms: u32, quoted_pattern: &str) -> (s: String)
    ensures
        s@ == "tether: timeout after "@ + decimal(timeout_ms as nat) + "ms waiting for "@
            + quoted_pattern@,
{
    cat4(
        "tether: timeout after ",
        dec_u64(timeout_ms as u64).as_str(),
        "ms waiting for ",
        quoted_pattern,
    )
}

/// What is said when a pattern did not come in time.
pub fn wait_timeout_line(timeout_ms: u32, pattern: &str) -> (s: String)
    ensures
        s@ == "tether: timeout after "@ + decimal(timeout_ms as nat) + "ms waiting for "@
            + quoted_text(pattern@),
{
    wait_timeout_text(timeout_ms, quoted(pattern).as_str())
}

// ---------- status, config ----------

/// Row `i` is the one of this device.
pub open spec fn is_row_of(rows: Seq<DeviceStatus>, id: Seq<char>, i: int) -> bool {
    &&& 0 <= i < rows.len() && rows[i].id@ == id
    &&& forall|j: int| 0 <= j < i ==> (#[trigger] rows[j]).id@ != id
}

/// Some row is that of this device.
pub open spec fn has_row(rows: Seq<DeviceStatus>, id: Seq<char>) -> bool {
    exists|i: int| is_row_of(rows, id, i)
}

pub fn find_row(rows: &Vec<DeviceStatus>, id: &str) -> (r: Option<usize>)
    ensures
        r is Some <==> has_row(rows@, id@),
        r matches Some(i) ==> is_row_of(rows@, id@, i as int),
{
    let mut i: usize = 0;
    while i < rows.len()
        invariant
            i <= rows@.len(),
            forall|j: int| 0 <= j < i ==> (#[trigger] rows@[j]).id@ != id@,
        decreases rows@.len() - i,
    {
        if str_eq(rows[i].id.as_str(), id) {
            assert(is_row_of(rows@, id@, i as int));
            return Some(i);
        }
        i = i + 1;
    }
    None
}

/// The ids of the first `n` rows, joined by commas.
pub open spec fn joined_ids(rows: Seq<DeviceStatus>, n: int) -> Seq<char>
    decreases n,
{
    if n <= 0 {
        ""@
    } else if n == 1 {
        rows[0].id@
    } else {
        joined_ids(rows, n - 1) + ", "@ + rows[n - 1].id@
    }
}

fn join_ids(rows: &Vec<DeviceStatus>) -> (s: String)
    ensures
        s@ == joined_ids(rows@, rows@.len() as int),
{
    if rows.len() == 0 {
        return "".to_owned();
    }
    let mut s = rows[0].id.clone();
    let mut i: usize = 1;
    while i < rows.len()
        invariant
            1 <= i <= rows@.len(),
            s@ == joined_ids(rows@, i as int),
        decreases rows@.len() - i,
    {
        s.append(", ");
        s.append(rows[i].id.as_str());
        i = i + 1;
    }
    s
}

/// Reports a chosen device at the top of a status: its row's description,
/// buffer, lock and sessions take the place of the default device's; the rows
/// stay. An id that the daemon does not have is refused, with those that it
/// has.
pub fn select_status(status: StatusResult, want: &str) -> (r: Result<StatusResult, CliError>)
    ensures
        match r {
            Ok(s) => {
                &&& s.devices == status.devices
                &&& s.default_device == status.default_device
                &&& exists|i: int|
                    #[trigger] is_row_of(status.devices@, want@, i) && s.device
                        == status.devices@[i].device && s.buffer == status.devices@[i].buffer
                        && s.lock == status.devices@[i].lock && s.sessions@
                        == status.devices@[i].sessions@
            },
            Err(e) => !has_row(status.devices@, want@) && (e matches CliError::Protocol(m) && m@
                == "device \""@ + want@ + "\" not found (daemon has: "@ + joined_ids(
                status.devices@,
                status.devices@.len() as int,
            ) + ")"@),
        },
{
    match find_row(&status.devices, want) {
        Some(i) => {
            let row = &status.devices[i];
            let device = row.device.duplicate();
            let buffer = row.buffer;
            let lock = row.lock.duplicate();
            let sessions = duplicate_sessions(&row.sessions);
            assert(is_row_of(status.devices@, want@, i as int));
            Ok(
                StatusResult {
                    device,
                    buffer,
                    lock,
                    sessions,
                    devices: status.devices,
                    default_device: status.default_device,
                },
            )
        },
        None => Err(
            CliError::Protocol(
                cat5(
                    "device \"",
                    want,
                    "\" not found (daemon has: ",
                    join_ids(&status.devices).as_str(),
                    ")",
                ),
            ),
        ),
    }
}

/// The row whose device a command without a session is about: the one asked
/// for, or else the daemon's default. `None` stands for the top-level device.
pub fn target_row(status: &StatusResult, want: &Option<String>) -> (r: Option<usize>)
    ensures
        ({
            let id = if want is Some {
                opt_view(*want)
            } else {
                opt_view(status.default_device)
            };
            &&& r is Some <==> (id matches Some(x) && has_row(status.devices@, x))
            &&& r matches Some(i) ==> is_row_of(status.devices@, id.unwrap(), i as int)
        }),
{
    match want {
        Some(id) => find_row(&status.devices, id.as_str()),
        None => match &status.default_device {
            Some(id) => find_row(&status.devices, id.as_str()),
            None => None,
        },
    }
}

// ---------- Lifecycle reports ----------

/// What is said after a `reconnect`, and whether the device is usable.
pub open spec fn reconnect_text(
    connected: bool,
    reconnected: bool,
    reason: Option<Seq<char>>,
    timeout_ms: u32,
) -> Seq<char> {
    if connected {
        "tether: device reopened"@
    } else if reconnected {
        "tether: reconnect succeeded but device state is uncertain"@
    } else {
        "tether: reconnect requested but device is still disconnected after "@ + decimal(
            timeout_ms as nat,
        ) + "ms"@ + (match reason {
            Some(r) => " ("@ + r + ")"@,
            None => ""@,
        })
    }
}

pub fn report_reconnect(
    connected: bool,
    reconnected: bool,
    reason: &Option<String>,
    timeout_ms: u32,
) -> (r: (String, bool))
    ensures
        r.0@ == reconnect_text(connected, reconnected, opt_view(*reason), timeout_ms),
        r.1 == (connected || reconnected),
{
    if connected {
        return ("tether: device reopened".to_owned(), true);
    }
    if reconnected {
        return ("tether: reconnect succeeded but device state is uncertain".to_owned(), true);
    }
    let tail = match reason {
        Some(r) => cat3(" (", r.as_str(), ")"),
        None => "".to_owned(),
    };
    (
        cat4(
            "tether: reconnect requested but device is still disconnected after ",
            dec_u64(timeout_ms as u64).as_str(),
            "ms",
            tail.as_str(),
        ),
        false,
    )
}

/// What is said after a `connect`.
pub fn report_connect(connected: bool) -> (s: &'static str)
    ensures
        s@ == (if connected {
            "tether: device reopened"@
        } else {
            "tether: connect requested but device is still closed"@
        }),
{
    if connected {
        "tether: device reopened"
    } else {
        "tether: connect requested but device is still closed"
    }
}

// ---------- sync ----------

/// How long `sync` listens next; `None` ends it. Each window is as long as the
/// device may be silent, cut short by the time that is left.
pub fn sync_window(elapsed_ms: u64, timeout_ms: u32, idle_ms: u32) -> (w: Option<u32>)
    ensures
        elapsed_ms >= timeout_ms ==> w is None,
        elapsed_ms < timeout_ms ==> w == Some(
            if idle_ms <= timeout_ms - elapsed_ms {
                idle_ms
            } else {
                (timeout_ms - elapsed_ms) as u32
            },
        ),
{
    if elapsed_ms >= timeout_ms as u64 {
        return None;
    }
    let remain: u32 = (timeout_ms as u64 - elapsed_ms) as u32;
    if idle_ms <= remain {
        Some(idle_ms)
    } else {
        Some(remain)
    }
}

/// Whether the device counts as idle after a window without output: it said
/// something, and has been silent long enough since.
pub fn sync_idle(silent_ms: u64, idle_ms: u32, heard_anything: bool) -> (b: bool)
    ensures
        b == (silent_ms >= idle_ms && heard_anything),
{
    silent_ms >= idle_ms as u64 && heard_anything
}

/// The parameters of one window: anything at all.
pub fn sync_params(session_id: &str, window_ms: u32) -> (p: ExpectParams)
    ensures
        p.session_id@ == session_id@,
        p.pattern@ == "(?s).+"@,
        p.regex,
        p.timeout_ms == Some(window_ms),
        !p.strip_ansi,
        p.strip_echo is None,
        p.from_seq is None,
        p.max_bytes is None,
        p.max_output_bytes is None,
{
    ExpectParams {
        session_id: session_id.to_owned(),
        pattern: "(?s).+".to_owned(),
        regex: true,
        timeout_ms: Some(window_ms),
        strip_ansi: false,
        strip_echo: None,
        from_seq: None,
        max_bytes: None,
        max_output_bytes: None,
    }
}

/// Adds the bytes before a match, where there are any, and the match.
pub fn heard_with(heard: &mut Vec<u8>, before: Option<Vec<u8>>, match_text: &str)
    ensures
        final(heard)@ == old(heard)@ + (match before {
            Some(bytes) => bytes@,
            None => Seq::empty(),
        }) + encode_utf8(match_text@),
{
    if let Some(mut bytes) = before {
        let ghost got = bytes@;
        heard.append(&mut bytes);
        assert(heard@ =~= old(heard)@ + got);
    } else {
        assert(heard@ =~= old(heard)@ + Seq::<u8>::empty());
    }
    let ghost mid = heard@;
    heard.extend_from_slice(match_text.as_bytes());
    assert(heard@ =~= mid + encode_utf8(match_text@));
}

/// Adds what a window heard: the bytes before its match, if they can be
/// decoded, then the match.
pub fn sync_heard(heard: &mut Vec<u8>, before_b64: &str, match_text: &str)
    ensures
        final(heard)@ == old(heard)@ + (match base64_bytes(before_b64@) {
            Ok(bytes) => bytes,
            Err(_) => Seq::empty(),
        }) + encode_utf8(match_text@),
{
    let before = match b64_decode_raw(before_b64) {
        Ok(bytes) => Some(bytes),
        Err(_) => None,
    };
    heard_with(heard, before, match_text);
}

/// A line as it reads: without a CR before its LF.
pub open spec fn line_text(pieces: Seq<Seq<char>>, i: int) -> Seq<char> {
    let p = pieces[i];
    if i + 1 < pieces.len() && p.len() > 0 && p.last() == '\r' {
        p.drop_last()
    } else {
        p
    }
}

/// The last of the first `n` lines that is not blank, or nothing.
pub open spec fn last_nonblank(pieces: Seq<Seq<char>>, n: int) -> Seq<char>
    decreases n,
{
    if n <= 0 {
        ""@
    } else if trim(line_text(pieces, n - 1)).len() > 0 {
        line_text(pieces, n - 1)
    } else {
        last_nonblank(pieces, n - 1)
    }
}

/// The last line of a text that is not blank.
pub fn last_line(text: &str) -> (s: String)
    ensures
        s@ == last_nonblank(split(text@, '\n'), split(text@, '\n').len() as int),
{
    let chars = chars_of(text);
    let pieces = split_chars(chars.as_slice(), '\n');
    let ghost all = split(text@, '\n');
    assert(all_chars(pieces@) == all);
    let mut n: usize = pieces.len();
    while n > 0
        invariant
            n <= pieces@.len(),
            all_chars(pieces@) == all,
            pieces@.len() == all.len(),
            last_nonblank(all, n as int) == last_nonblank(all, all.len() as int),
            all == split(text@, '\n'),
        decreases n,
    {
        let p = &pieces[n - 1];
        assert(p@ == all[n - 1]);
        let len: usize = p.len();
        let end: usize = if n < pieces.len() && len > 0 && p[len - 1] == '\r' {
            len - 1
        } else {
            len
        };
        let line = slice_subrange(p.as_slice(), 0, end);
        assert(line@ =~= line_text(all, n - 1));
        if trim_chars(line).len() > 0 {
            return string_of(line);
        }
        n = n - 1;
    }
    "".to_owned()
}

/// The prompt candidate after listening: the last line that is not blank.
pub fn prompt_candidate(heard: &Vec<u8>) -> (s: String)
    ensures
        ({
            let pieces = split(lossy_text(heard@), '\n');
            s@ == last_nonblank(pieces, pieces.len() as int)
        }),
        valid_utf8(heard@) ==> ({
            let pieces = split(decode_utf8(heard@), '\n');
            s@ == last_nonblank(pieces, pieces.len() as int)
        }),
{
    last_line(lossy(heard.as_slice()).as_str())
}

} // verus!
