//! The wire types: messages, and the parameters and results of each method.

use vstd::prelude::*;
use vstd::string::*;

use crate::error::ProtocolError;
use crate::text::{clone_opt, str_eq};

verus! {

/// Protocol version string.
pub const PROTOCOL_VERSION: &'static str = "1";

/// A JSON value that is carried and not looked into.
#[verifier::external_type_specification]
#[verifier::external_body]
pub struct ExJsonValue(serde_json::Value);

/// JSON-RPC 2.0 id — integer or string.
#[derive(Debug, Clone)]
pub enum RpcId {
    Number(i64),
    Text(String),
}

/// One message per line — exactly one of Request / Response / Notification.
#[derive(Debug)]
pub enum Message {
    Request(Request),
    Response(Response),
    Notification(Notification),
}

#[derive(Debug)]
pub struct Request {
    pub jsonrpc: JsonRpcVersion,
    pub id: RpcId,
    pub method: String,
    pub params: Option<serde_json::Value>,
}

#[derive(Debug)]
pub struct Response {
    pub jsonrpc: JsonRpcVersion,
    pub id: RpcId,
    pub payload: ResponsePayload,
}

#[derive(Debug)]
pub enum ResponsePayload {
    Success { result: serde_json::Value },
    Failure { error: ProtocolError },
}

#[derive(Debug)]
pub struct Notification {
    pub jsonrpc: JsonRpcVersion,
    pub method: String,
    pub params: Option<serde_json::Value>,
}

/// The protocol marker; always the literal string "2.0" on the wire.
#[derive(Debug, Clone, Copy, Default, PartialEq, Eq, Structural)]
pub struct JsonRpcVersion;

impl JsonRpcVersion {
    /// What stands for this marker on the wire.
    pub fn as_str(&self) -> (s: &'static str)
        ensures
            s@ == "2.0"@,
    {
        "2.0"
    }

    /// Reads the marker: `"2.0"` and nothing else.
    pub fn parse(s: &str) -> (v: Option<Self>)
        ensures
            v is Some <==> s@ == "2.0"@,
    {
        if str_eq(s, "2.0") {
            Some(JsonRpcVersion)
        } else {
            None
        }
    }
}

/// The kinds of message that a line can hold.
#[derive(Debug, Clone, Copy, PartialEq, Eq, Structural)]
pub enum MessageKind {
    Request,
    ResponseOk,
    ResponseErr,
    Notification,
}

/// Which of the fields that tell messages apart an object has.
#[derive(Debug, Clone, Copy, PartialEq, Eq, Structural)]
pub struct MessageFields {
    pub id: bool,
    pub method: bool,
    pub result: bool,
    pub error: bool,
}

impl MessageFields {
    /// With an id, a method makes a request, and a result or else an error
    /// makes a response; a method without an id makes a notification.
    pub open spec fn kind_spec(self) -> Option<MessageKind> {
        if self.id && self.method {
            Some(MessageKind::Request)
        } else if self.id && self.result {
            Some(MessageKind::ResponseOk)
        } else if self.id && self.error {
            Some(MessageKind::ResponseErr)
        } else if self.method {
            Some(MessageKind::Notification)
        } else {
            None
        }
    }

    /// The kind of message that an object with these fields is.
    pub fn kind(&self) -> (k: Option<MessageKind>)
        ensures
            k == self.kind_spec(),
    {
        if self.id && self.method {
            Some(MessageKind::Request)
        } else if self.id && self.result {
            Some(MessageKind::ResponseOk)
        } else if self.id && self.error {
            Some(MessageKind::ResponseErr)
        } else if self.method {
            Some(MessageKind::Notification)
        } else {
            None
        }
    }
}

impl Message {
    /// The fields that this message has on the wire.
    pub open spec fn fields(&self) -> MessageFields {
        match self {
            Message::Request(_) => MessageFields {
                id: true,
                method: true,
                result: false,
                error: false,
            },
            Message::Response(r) => MessageFields {
                id: true,
                method: false,
                result: r.payload is Success,
                error: r.payload is Failure,
            },
            Message::Notification(_) => MessageFields {
                id: false,
                method: true,
                result: false,
                error: false,
            },
        }
    }
}

/// Every message is recognised by its fields as what it is.
pub proof fn law_message_kind_recognised(m: Message)
    ensures
        m.fields().kind_spec() == Some(
            match m {
                Message::Request(_) => MessageKind::Request,
                Message::Response(r) => if r.payload is Success {
                    MessageKind::ResponseOk
                } else {
                    MessageKind::ResponseErr
                },
                Message::Notification(_) => MessageKind::Notification,
            },
        ),
{
}

impl Request {
    pub fn new(id: RpcId, method: &str, params: serde_json::Value) -> (r: Self)
        ensures
            r.id == id,
            r.method@ == method@,
            r.params == Some(params),
    {
        Request { jsonrpc: JsonRpcVersion, id, method: method.to_owned(), params: Some(params) }
    }
}

impl Response {
    pub fn ok(id: RpcId, result: serde_json::Value) -> (r: Self)
        ensures
            r.id == id,
            r.payload == (ResponsePayload::Success { result }),
    {
        Response { jsonrpc: JsonRpcVersion, id, payload: ResponsePayload::Success { result } }
    }

    pub fn err(id: RpcId, error: ProtocolError) -> (r: Self)
        ensures
            r.id == id,
            r.payload == (ResponsePayload::Failure { error }),
    {
        Response { jsonrpc: JsonRpcVersion, id, payload: ResponsePayload::Failure { error } }
    }
}

impl Notification {
    pub fn new(method: &str, params: serde_json::Value) -> (r: Self)
        ensures
            r.method@ == method@,
            r.params == Some(params),
    {
        Notification { jsonrpc: JsonRpcVersion, method: method.to_owned(), params: Some(params) }
    }
}

// ---------- Method parameters / results ----------

#[derive(Debug, Clone)]
pub struct ClientInfo {
    pub name: String,
    pub version: String,
    /// "human" | "agent" | "logger"
    pub kind: String,
}

#[derive(Debug, Clone)]
pub struct HelloParams {
    pub protocol_version: String,
    pub client: ClientInfo,
    pub auth_token: Option<String>,
}

#[derive(Debug, Clone)]
pub struct DeviceInfo {
    pub path: String,
    pub baud: u32,
    pub data_bits: u8,
    pub parity: String,
    pub stop_bits: u8,
    pub flow_control: String,
    pub connected: bool,
    /// Daemon-internal device id (operator-chosen, e.g. `"board0"`). Absent
    /// in single-device daemons that pre-date multi-device support; new
    /// daemons always populate this.
    pub id: Option<String>,
    /// Console personality: `"posix"` | `"uboot"` | `"none"` (see the `-D
    /// shell=` device setting). Drives how `exec` frames commands and what
    /// hints the client prints. Defaults to `"posix"` for daemons that
    /// pre-date the setting.
    pub shell: String,
    /// Default `-u` prompt regex for `run` / `sync` when the caller omits
    /// `-u`. `None` means the caller must supply one.
    pub prompt: Option<String>,
    /// Default line terminator (`"lf"` | `"cr"` | `"crlf"` | `"none"`) applied
    /// by `run` when `--newline` is not given. `None` means no per-device
    /// default (the command's own default applies).
    pub newline: Option<String>,
}

/// Compact summary used in `list_devices` and the new `StatusResult.devices`
/// field. Mirrors `DeviceInfo` but drops the redundant defaults so the list
/// stays small when N is large.
#[derive(Debug, Clone)]
pub struct DeviceSummary {
    pub id: String,
    pub path: String,
    pub baud: u32,
    pub data_bits: u8,
    pub parity: String,
    pub stop_bits: u8,
    pub flow_control: String,
    pub connected: bool,
    /// True when the operator (or `disconnect_device` RPC) has explicitly
    /// closed the port; auto-reconnect is paused until `connect_device`.
    pub explicitly_disconnected: bool,
    /// Console personality: `"posix"` | `"uboot"` | `"none"`. See
    /// [`DeviceInfo::shell`].
    pub shell: String,
    /// Default `-u` prompt regex for `run` / `sync`. See
    /// [`DeviceInfo::prompt`].
    pub prompt: Option<String>,
    /// Default line terminator for `run`. See [`DeviceInfo::newline`].
    pub newline: Option<String>,
}

#[derive(Debug, Clone)]
pub struct ListDevicesResult {
    pub devices: Vec<DeviceSummary>,
    /// The daemon's "default" device — the one selected when a client omits
    /// `device_id`. Only meaningful when `devices.len() == 1`; for N>1
    /// daemons, clients must specify `device_id` explicitly.
    pub default_device: String,
}

pub fn default_data_bits() -> (v: u8)
    ensures
        v == 8,
{
    8
}

pub fn default_shell() -> (v: String)
    ensures
        v@ == "posix"@,
{
    "posix".to_owned()
}

pub fn default_parity() -> (v: String)
    ensures
        v@ == "none"@,
{
    "none".to_owned()
}

pub fn default_stop_bits() -> (v: u8)
    ensures
        v == 1,
{
    1
}

pub fn default_serial_flow_control() -> (v: String)
    ensures
        v@ == "none"@,
{
    "none".to_owned()
}

pub fn default_connected() -> (v: bool)
    ensures
        v == true,
{
    true
}

// ---------- list_ports ----------

#[derive(Debug, Clone)]
pub struct PortInfo {
    pub path: String,
    /// "usb" | "pci" | "bluetooth" | "unknown"
    pub kind: String,
    pub manufacturer: Option<String>,
    pub product: Option<String>,
    pub serial_number: Option<String>,
    /// USB Vendor ID, lowercase 4-hex (e.g. "10c4").
    pub vid: Option<String>,
    /// USB Product ID, lowercase 4-hex.
    pub pid: Option<String>,
}

#[derive(Debug, Clone)]
pub struct ListPortsResult {
    pub ports: Vec<PortInfo>,
}

// ---------- set_device ----------

#[derive(Debug, Clone, Default)]
pub struct SetDeviceParams {
    /// Which device to apply to. Optional in single-device daemons.
    pub device_id: Option<String>,
    /// New baud rate (e.g. 9600, 115200, 921600). Optional.
    pub baud: Option<u32>,
    /// 5..=8. Optional.
    pub data_bits: Option<u8>,
    /// "none" | "odd" | "even". Optional. (mark/space not supported by serialport-rs.)
    pub parity: Option<String>,
    /// 1 or 2. Optional.
    pub stop_bits: Option<u8>,
    /// "none" | "software" | "hardware". Optional.
    pub flow_control: Option<String>,
}

#[derive(Debug, Clone)]
pub struct SetDeviceResult {
    pub device: DeviceInfo,
}

// ---------- Reconnect ----------

#[derive(Debug, Clone, Default)]
pub struct ReconnectParams {
    /// Optional device target. Required on multi-device daemons (>1 device).
    pub device_id: Option<String>,
    /// Block until the device reopens (default true).
    pub wait: bool,
    /// How long to wait before giving up. Default 5000.
    pub timeout_ms: u32,
}

pub fn default_reconnect_timeout_ms() -> (v: u32)
    ensures
        v == 5000,
{
    5000
}

#[derive(Debug, Clone)]
pub struct ReconnectResult {
    pub triggered: bool,
    pub reconnected: bool,
    pub device_connected: bool,
    /// Why the port is still down, when it is.
    pub reason: Option<String>,
}

// ---------- Tio-style line / break / modem control (since v0.8) ----------

/// Parameters that just identify a target device. Used by the simpler
/// per-device control RPCs.
#[derive(Debug, Clone, Default)]
pub struct DeviceTarget {
    pub device_id: Option<String>,
}

/// Empty acknowledgement returned by control RPCs that don't carry a value.
#[derive(Debug, Clone, Default)]
pub struct AckResult {
    /// Always `true` on success; carries no extra info today, but having a
    /// non-empty struct lets us add fields later without breaking clients.
    pub ok: bool,
}

#[derive(Debug, Clone, Default)]
pub struct SendBreakParams {
    pub device_id: Option<String>,
    /// Break duration in milliseconds. Defaults to 250 (matches tio).
    pub duration_ms: u32,
}

pub fn default_break_ms() -> (v: u32)
    ensures
        v == 250,
{
    250
}

#[derive(Debug, Clone, Default)]
pub struct SetLineParams {
    pub device_id: Option<String>,
    /// `true` asserts the line; `false` deasserts.
    pub on: bool,
}

#[derive(Debug, Clone, Default)]
pub struct ReadModemStatusResult {
    /// Clear To Send.
    pub cts: bool,
    /// Data Set Ready.
    pub dsr: bool,
    /// Ring Indicator.
    pub ri: bool,
    /// Data Carrier Detect.
    pub dcd: bool,
}

// ---------- Explicit connect / disconnect (since v0.8) ----------

#[derive(Debug, Clone)]
pub struct DisconnectDeviceResult {
    pub device: DeviceInfo,
}

#[derive(Debug, Clone)]
pub struct ConnectDeviceResult {
    pub device: DeviceInfo,
    /// True if the port was successfully reopened. Mirrors the existing
    /// `reconnect` semantics; `device.connected` reflects the final state.
    pub connected: bool,
}

#[derive(Debug, Clone, Copy)]
pub struct BufferInfo {
    pub capacity_bytes: u64,
    pub head_seq: u64,
    pub tail_seq: u64,
}

#[derive(Debug, Clone)]
pub struct HelloResult {
    pub server_version: String,
    pub protocol_version: String,
    pub device: DeviceInfo,
    pub buffer: BufferInfo,
}

#[derive(Debug, Clone)]
pub enum ReplaySpec {
    /// "start" | "now"
    Named(String),
    FromSeq { seq: u64 },
}

impl Default for ReplaySpec {
    fn default() -> (r: Self)
        ensures
            r matches ReplaySpec::Named(s) && s@ == "now"@,
    {
        ReplaySpec::Named("now".to_owned())
    }
}

#[derive(Debug, Clone)]
pub struct AttachParams {
    pub session_id: Option<String>,
    /// "rw" | "ro"
    pub mode: String,
    pub replay: ReplaySpec,
    pub label: Option<String>,
    /// "drop_oldest" | "disconnect"
    pub flow_control: String,
    /// Which daemon-managed device to attach to. Single-device daemons may
    /// omit this. Multi-device daemons return `AmbiguousDevice` when
    /// missing and the daemon serves >1.
    pub device_id: Option<String>,
}

pub fn default_flow_control() -> (v: String)
    ensures
        v@ == "drop_oldest"@,
{
    "drop_oldest".to_owned()
}

#[derive(Debug, Clone)]
pub struct AttachResult {
    pub session_id: String,
    pub cursor_seq: u64,
    pub restored: bool,
}

#[derive(Debug, Clone)]
pub struct DetachParams {
    pub session_id: String,
}

#[derive(Debug, Clone)]
pub struct SendParams {
    pub session_id: String,
    /// Exactly one of `data` (base64) or `data_text` (UTF-8) is required.
    pub data: Option<String>,
    pub data_text: Option<String>,
    pub eat_echo: bool,
}

#[derive(Debug, Clone)]
pub struct SendResult {
    pub bytes_written: u64,
    pub sent_at_seq: u64,
}

#[derive(Debug, Clone)]
pub struct ExpectParams {
    pub session_id: String,
    pub pattern: String,
    pub regex: bool,
    pub timeout_ms: Option<u32>,
    pub strip_ansi: bool,
    /// Strip these bytes (CR/LF tolerantly) from the start of `before` when matched.
    /// Typically you pass the bytes you just sent to remove the echoed command line.
    pub strip_echo: Option<String>,
    pub from_seq: Option<u64>,
    /// Maximum bytes that may accumulate while waiting for a match. Exceeding this
    /// raises BufferOverflow.
    pub max_bytes: Option<u64>,
    /// Maximum size of the `before` field returned in the response. When exceeded,
    /// only the trailing N bytes are returned and `truncated` is set. `None` = no cap.
    pub max_output_bytes: Option<u64>,
}

pub fn default_true() -> (v: bool)
    ensures
        v == true,
{
    true
}

#[derive(Debug, Clone)]
pub struct ExpectMatch {
    pub matched: bool,
    pub match_text: String,
    /// Bytes accumulated up to the match, base64-encoded. Reflects strip_ansi / strip_echo.
    pub before: String,
    pub match_seq: u64,
    pub end_seq: u64,
    /// True when `before` was capped by `max_output_bytes`.
    pub truncated: bool,
    /// Original length before truncation (only set when `truncated` is true).
    pub original_bytes: Option<u64>,
}

pub type ExpectResult = ExpectMatch;

#[derive(Debug, Clone)]
pub struct UntilSpec {
    pub pattern: String,
    pub regex: bool,
    pub strip_ansi: bool,
}

#[derive(Debug, Clone)]
pub struct RunParams {
    pub session_id: String,
    pub data: Option<String>,
    pub data_text: Option<String>,
    pub until: UntilSpec,
    pub timeout_ms: Option<u32>,
    /// "queue" | "fail" | "force"
    pub preempt: String,
    /// Strip the echoed command line from `before` (for devices that echo input).
    pub strip_echo: bool,
    pub max_bytes: Option<u64>,
    pub max_output_bytes: Option<u64>,
}

pub fn default_preempt() -> (v: String)
    ensures
        v@ == "queue"@,
{
    "queue".to_owned()
}

#[derive(Debug, Clone)]
pub struct RunResult {
    /// base64
    pub output: String,
    pub match_text: String,
    pub duration_ms: u64,
    pub match_seq: u64,
}

// ---------- Explicit writer lock (since v0.11) ----------
//
// Unlike the transient hold `run` takes internally (released the instant its
// send+expect transaction completes), `lock` grants *exclusive* possession of
// the device's writer lock that persists until `unlock`, session detach, or
// connection teardown. Exclusive holds additionally gate plain `send` from
// other sessions.

#[derive(Debug, Clone)]
pub struct LockParams {
    pub session_id: String,
    pub device_id: Option<String>,
    /// "queue" | "fail" | "force". Same semantics as `RunParams::preempt`.
    pub preempt: String,
}

#[derive(Debug, Clone)]
pub struct LockResult {
    pub locked: bool,
}

#[derive(Debug, Clone)]
pub struct UnlockParams {
    pub session_id: String,
    pub device_id: Option<String>,
}

#[derive(Debug, Clone)]
pub struct UnlockResult {
    pub unlocked: bool,
}

#[derive(Debug, Clone)]
pub struct CancelParams {
    pub id: RpcId,
}

#[derive(Debug, Clone)]
pub struct CancelResult {
    pub cancelled: bool,
}

#[derive(Debug, Clone)]
pub struct SessionInfo {
    pub id: String,
    pub label: Option<String>,
    pub mode: String,
    pub cursor_seq: u64,
    pub lag_bytes: u64,
}

#[derive(Debug, Clone)]
pub struct LockState {
    pub holder_session_id: Option<String>,
    pub acquired_at: Option<String>,
}

#[derive(Debug, Clone)]
pub struct StatusResult {
    /// Default device's info, kept for v0.7 backwards compatibility.
    /// Multi-device daemons populate this with the device tagged as default.
    pub device: DeviceInfo,
    /// Default device's buffer state — same backwards-compat reasoning.
    pub buffer: BufferInfo,
    pub lock: LockState,
    pub sessions: Vec<SessionInfo>,
    /// Per-device snapshot for multi-device daemons. Single-device daemons
    /// populate this with one entry (the same device as `device` above).
    /// Absent on pre-v0.8 daemons.
    pub devices: Vec<DeviceStatus>,
    /// Daemon-internal id of the default device. Absent on pre-v0.8 daemons.
    pub default_device: Option<String>,
}

/// One row of `StatusResult.devices` — same structure as `device + buffer +
/// lock + sessions`, scoped to a single device.
#[derive(Debug, Clone)]
pub struct DeviceStatus {
    pub id: String,
    pub device: DeviceInfo,
    pub buffer: BufferInfo,
    pub lock: LockState,
    pub sessions: Vec<SessionInfo>,
    /// True when the operator has explicitly disconnected this device
    /// (via `disconnect_device`); auto-reconnect is paused.
    pub explicitly_disconnected: bool,
}

// ---------- Notification parameters ----------
//
// Every notification has an optional `device_id` field so multi-device daemons
// can route them. Single-device daemons may omit it.

#[derive(Debug, Clone)]
pub struct DataNotify {
    pub session_id: String,
    pub seq: u64,
    /// base64
    pub data: String,
    pub device_id: Option<String>,
}

#[derive(Debug, Clone)]
pub struct LagNotify {
    pub session_id: String,
    pub dropped_bytes: u64,
    pub dropped_range: [u64; 2],
    pub resume_seq: u64,
    pub device_id: Option<String>,
}

#[derive(Debug, Clone)]
pub struct LockNotify {
    /// "acquired" | "released" | "queued" | "preempted"
    pub kind: String,
    pub holder_session_id: Option<String>,
    pub queue_depth: u32,
    pub device_id: Option<String>,
}

#[derive(Debug, Clone)]
pub struct SessionNotify {
    pub id: String,
    /// "attached" | "detached" | "preempted"
    pub kind: String,
    pub reason: Option<String>,
    pub device_id: Option<String>,
}

#[derive(Debug, Clone)]
pub struct DeviceNotify {
    /// "disconnected" | "reconnected" | "config_changed"
    pub kind: String,
    pub detail: Option<String>,
    pub device_id: Option<String>,
}

// ---------- Copies ----------

impl DeviceInfo {
    pub fn duplicate(&self) -> (c: Self)
        ensures
            c == *self,
    {
        DeviceInfo {
            path: self.path.clone(),
            baud: self.baud,
            data_bits: self.data_bits,
            parity: self.parity.clone(),
            stop_bits: self.stop_bits,
            flow_control: self.flow_control.clone(),
            connected: self.connected,
            id: clone_opt(&self.id),
            shell: self.shell.clone(),
            prompt: clone_opt(&self.prompt),
            newline: clone_opt(&self.newline),
        }
    }
}

impl LockState {
    pub fn duplicate(&self) -> (c: Self)
        ensures
            c == *self,
    {
        LockState {
            holder_session_id: clone_opt(&self.holder_session_id),
            acquired_at: clone_opt(&self.acquired_at),
        }
    }
}

impl SessionInfo {
    pub fn duplicate(&self) -> (c: Self)
        ensures
            c == *self,
    {
        SessionInfo {
            id: self.id.clone(),
            label: clone_opt(&self.label),
            mode: self.mode.clone(),
            cursor_seq: self.cursor_seq,
            lag_bytes: self.lag_bytes,
        }
    }
}

/// A copy of a list of sessions.
pub fn duplicate_sessions(v: &Vec<SessionInfo>) -> (c: Vec<SessionInfo>)
    ensures
        c@ == v@,
{
    let mut c: Vec<SessionInfo> = Vec::new();
    let mut i: usize = 0;
    while i < v.len()
        invariant
            i <= v@.len(),
            c@ == v@.take(i as int),
        decreases v@.len() - i,
    {
        c.push(v[i].duplicate());
        i = i + 1;
        assert(c@ =~= v@.take(i as int));
    }
    assert(v@.take(i as int) =~= v@);
    c
}

/// An object is a request if it has an id and a method, a response if it has an
/// id and a result, or else an error, but no method, a notification if it has a
/// method and no id, and nothing otherwise. The protocol marker is `2.0`.
pub proof fn law_message_kinds(
    f: &MessageFields,
    k: Option<MessageKind>,
    s: &str,
    v: Option<JsonRpcVersion>,
    shown: &'static str,
)
    requires
        call_ensures(MessageFields::kind, (f,), k),
        call_ensures(JsonRpcVersion::parse, (s,), v),
        call_ensures(JsonRpcVersion::as_str, (&JsonRpcVersion,), shown),
    ensures
        k == Some(MessageKind::Request) <==> f.id && f.method,
        k == Some(MessageKind::ResponseOk) <==> f.id && !f.method && f.result,
        k == Some(MessageKind::ResponseErr) <==> f.id && !f.method && !f.result && f.error,
        k == Some(MessageKind::Notification) <==> !f.id && f.method,
        k is None <==> !f.method && (!f.id || (!f.result && !f.error)),
        v is Some <==> s@ == "2.0"@,
        shown@ == "2.0"@,
{
}

/// Messages carry what they are made of.
pub proof fn law_messages_carry(
    id: RpcId,
    method: &str,
    params: serde_json::Value,
    request: Request,
    ok: Response,
    notification: Notification,
)
    requires
        call_ensures(Request::new, (id, method, params), request),
        call_ensures(Response::ok, (id, params), ok),
        call_ensures(Notification::new, (method, params), notification),
    ensures
        request.id == id && request.method@ == method@ && request.params == Some(params),
        ok.id == id && ok.payload == (ResponsePayload::Success { result: params }),
        notification.method@ == method@ && notification.params == Some(params),
{
}

/// A refusal carries the error as it is.
pub proof fn law_refusals_carry(id: RpcId, error: ProtocolError, r: Response)
    requires
        call_ensures(Response::err, (id, error), r),
    ensures
        r.id == id && r.payload == (ResponsePayload::Failure { error }),
{
}

/// What is left out of a message means this.
pub proof fn law_wire_defaults(
    data_bits: u8,
    stop_bits: u8,
    shell: String,
    parity: String,
    serial_flow: String,
    connected: bool,
    reconnect_ms: u32,
    break_ms: u32,
    flow: String,
    yes: bool,
    preempt: String,
)
    requires
        call_ensures(default_data_bits, (), data_bits),
        call_ensures(default_stop_bits, (), stop_bits),
        call_ensures(default_shell, (), shell),
        call_ensures(default_parity, (), parity),
        call_ensures(default_serial_flow_control, (), serial_flow),
        call_ensures(default_connected, (), connected),
        call_ensures(default_reconnect_timeout_ms, (), reconnect_ms),
        call_ensures(default_break_ms, (), break_ms),
        call_ensures(default_flow_control, (), flow),
        call_ensures(default_true, (), yes),
        call_ensures(default_preempt, (), preempt),
    ensures
        data_bits == 8 && stop_bits == 1,
        shell@ == "posix"@ && parity@ == "none"@ && serial_flow@ == "none"@,
        connected && yes,
        reconnect_ms == 5000 && break_ms == 250,
        flow@ == "drop_oldest"@ && preempt@ == "queue"@,
{
}

} // verus!
