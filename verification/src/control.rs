//! The RPC methods about devices rather than sessions: status, enumeration,
//! settings, line control, and opening and closing ports.

use vstd::prelude::*;
use vstd::string::*;

use crate::error::{err_with, ErrorCode, ProtocolError};
use crate::handlers::{
    apply_error_to_proto, buffer_info, ctrl_io_to_proto, describe, describes, is_buffer_info,
};
use crate::message::{
    AckResult, ConnectDeviceResult, DeviceStatus, DeviceSummary, DeviceTarget,
    DisconnectDeviceResult, ListDevicesResult, ListPortsResult, LockState, PortInfo,
    ReconnectParams, ReconnectResult, SendBreakParams, SetDeviceParams, SetDeviceResult,
    SetLineParams, StatusResult,
};
use crate::serial::{
    ControlMsg, DataBits, FaultKind, FlowControl, IoFault, Parity, SerialConfig, SerialSettings,
    StopBits,
};
use crate::session::SessionManager;
use crate::state::{is_device_at, DaemonState, Device, DeviceEvent, DeviceEventKind};
use crate::text::{
    cat2, clone_opt, dec_u64, decimal, hex4, hex_fixed, lemma_lex_total, lemma_lex_transitive,
    lex_le, opt_view, quoted, quoted_text, str_eq, str_le,
};

verus! {

// ---------- status ----------

/// `lock` shows a device's lock.
pub open spec fn shows_lock(lock: LockState, device: Device) -> bool {
    &&& opt_view(lock.holder_session_id) == (match device.lock@ {
        Some(h) => Some(h.0),
        None => None,
    })
    &&& lock.acquired_at is None
}

/// `row` shows one device with its own sessions.
pub open spec fn is_device_row(row: DeviceStatus, device: Device, sessions: SessionManager) -> bool {
    &&& row.id@ == device.id@
    &&& describes(row.device, device)
    &&& is_buffer_info(row.buffer, device)
    &&& shows_lock(row.lock, device)
    &&& row.sessions@.len() == sessions.ids_for_device(device.id@).len()
    &&& forall|i: int|
        0 <= i < row.sessions@.len() ==> sessions.map()[sessions.ids_for_device(
            device.id@,
        )[i]].shown_as(device.buffer.head() as int, #[trigger] row.sessions@[i])
    &&& row.explicitly_disconnected == device.state.explicitly_disconnected
}

fn lock_state(device: &Device) -> (l: LockState)
    ensures
        shows_lock(l, *device),
{
    LockState { holder_session_id: device.lock.holder_id(), acquired_at: None }
}

fn device_row(device: &Device, sessions: &SessionManager) -> (row: DeviceStatus)
    requires
        device.wf(),
        sessions.wf(),
    ensures
        is_device_row(row, *device, *sessions),
{
    let (head, _tail) = device.buffer.snapshot_seqs();
    DeviceStatus {
        id: device.id.clone(),
        device: describe(device),
        buffer: buffer_info(device),
        lock: lock_state(device),
        sessions: sessions.snapshot_for_device(head, device.id.as_str()),
        explicitly_disconnected: device.state.explicitly_disconnected,
    }
}

/// Reports every device, and the default device with its sessions at the top.
pub fn status(state: &DaemonState) -> (r: StatusResult)
    requires
        state.wf(),
    ensures
        r.devices@.len() == state.devices@.len(),
        forall|i: int|
            0 <= i < r.devices@.len() ==> is_device_row(
                #[trigger] r.devices@[i],
                state.devices@[i],
                state.sessions,
            ),
        opt_view(r.default_device) == Some(state.default_device@),
        exists|d: int|
            {
                let device = #[trigger] state.devices@[d];
                &&& is_device_at(state.devices@, state.default_device@, d)
                &&& describes(r.device, device)
                &&& is_buffer_info(r.buffer, device)
                &&& shows_lock(r.lock, device)
                &&& r.sessions@.len() == state.sessions.ids_for_device(
                    state.default_device@,
                ).len()
                &&& forall|i: int|
                    0 <= i < r.sessions@.len() ==> state.sessions.map()[state.sessions.ids_for_device(
                        state.default_device@,
                    )[i]].shown_as(device.buffer.head() as int, #[trigger] r.sessions@[i])
            },
{
    let mut rows: Vec<DeviceStatus> = Vec::with_capacity(state.devices.len());
    let mut i: usize = 0;
    while i < state.devices.len()
        invariant
            state.wf(),
            i <= state.devices@.len(),
            rows@.len() == i,
            forall|j: int|
                0 <= j < rows@.len() ==> is_device_row(
                    #[trigger] rows@[j],
                    state.devices@[j],
                    state.sessions,
                ),
        decreases state.devices@.len() - i,
    {
        rows.push(device_row(&state.devices[i], &state.sessions));
        i = i + 1;
    }
    let d: usize = state.default_index();
    let device = &state.devices[d];
    let (head, _tail) = device.buffer.snapshot_seqs();
    StatusResult {
        device: describe(device),
        buffer: buffer_info(device),
        lock: lock_state(device),
        sessions: state.sessions.snapshot_for_device(head, state.default_device.as_str()),
        devices: rows,
        default_device: Some(state.default_device.clone()),
    }
}

// ---------- reconnect ----------

/// How waiting for the port to come back went.
#[derive(Debug, Clone, Copy, PartialEq, Eq, Structural)]
pub enum ReconnectWait {
    /// The client did not want to wait.
    Skipped,
    /// The port was reopened in time.
    Reopened,
    /// The time was up first.
    TimedOut,
}

/// What `reconnect` does when it is called without parameters.
pub fn default_reconnect_params() -> (p: ReconnectParams)
    ensures
        p.device_id is None,
        p.wait,
        p.timeout_ms == 5000,
{
    ReconnectParams {
        device_id: None,
        wait: true,
        timeout_ms: crate::message::default_reconnect_timeout_ms(),
    }
}

/// The device that a `reconnect` kicks, and how many milliseconds to wait for
/// its port to come back; none if the client does not want to wait.
pub fn reconnect(state: &DaemonState, p: &ReconnectParams) -> (r: Result<
    (usize, Option<u64>),
    ProtocolError,
>)
    requires
        state.wf(),
    ensures
        match r {
            Ok((i, limit)) => i < state.devices@.len() && state.resolves(
                opt_view(p.device_id),
                i as int,
            ) && limit == (if p.wait {
                Some(p.timeout_ms as u64)
            } else {
                None
            }),
            Err(e) => is_resolve_error(state, opt_view(p.device_id), e),
        },
{
    match target(state, &p.device_id) {
        Ok(i) => Ok(
            (
                i,
                if p.wait {
                    Some(p.timeout_ms as u64)
                } else {
                    None
                },
            ),
        ),
        Err(e) => Err(e),
    }
}

/// Answers a `reconnect`. A port that was up all along counts as reconnected
/// even if no reopening was seen; one that is down comes with the reason.
pub fn reconnect_result(device: &Device, wait: ReconnectWait) -> (r: ReconnectResult)
    ensures
        r.triggered,
        r.device_connected == device.state.connected,
        r.reconnected == (match wait {
            ReconnectWait::Skipped => false,
            ReconnectWait::Reopened => true,
            ReconnectWait::TimedOut => device.state.connected,
        }),
        opt_view(r.reason) == (if device.state.connected {
            None
        } else {
            opt_view(device.state.last_disconnect_reason)
        }),
{
    ReconnectResult {
        triggered: true,
        reconnected: match wait {
            ReconnectWait::Skipped => false,
            ReconnectWait::Reopened => true,
            ReconnectWait::TimedOut => device.state.connected,
        },
        device_connected: device.state.connected,
        reason: if device.state.connected {
            None
        } else {
            clone_opt(&device.state.last_disconnect_reason)
        },
    }
}

// ---------- list_ports ----------

/// A serial port found on the machine.
#[derive(Debug)]
pub struct FoundPort {
    pub path: String,
    pub kind: FoundKind,
}

#[derive(Debug)]
pub enum FoundKind {
    Usb(UsbPort),
    Pci,
    Bluetooth,
    Unknown,
}

#[derive(Debug)]
pub struct UsbPort {
    pub vid: u16,
    pub pid: u16,
    pub manufacturer: Option<String>,
    pub product: Option<String>,
    pub serial_number: Option<String>,
}

/// `info` is the wire form of a port that was found.
pub open spec fn is_port_info(info: PortInfo, port: FoundPort) -> bool {
    &&& info.path@ == port.path@
    &&& info.kind@ == (match port.kind {
        FoundKind::Usb(_) => "usb"@,
        FoundKind::Pci => "pci"@,
        FoundKind::Bluetooth => "bluetooth"@,
        FoundKind::Unknown => "unknown"@,
    })
    &&& match port.kind {
        FoundKind::Usb(u) => {
            &&& info.manufacturer == u.manufacturer
            &&& info.product == u.product
            &&& info.serial_number == u.serial_number
            &&& opt_view(info.vid) == Some(hex_fixed(u.vid as nat, 4))
            &&& opt_view(info.pid) == Some(hex_fixed(u.pid as nat, 4))
        },
        _ => {
            &&& info.manufacturer is None
            &&& info.product is None
            &&& info.serial_number is None
            &&& info.vid is None
            &&& info.pid is None
        },
    }
}

pub fn port_info(port: &FoundPort) -> (info: PortInfo)
    ensures
        is_port_info(info, *port),
{
    match &port.kind {
        FoundKind::Usb(u) => PortInfo {
            path: port.path.clone(),
            kind: "usb".to_owned(),
            manufacturer: clone_opt(&u.manufacturer),
            product: clone_opt(&u.product),
            serial_number: clone_opt(&u.serial_number),
            vid: Some(hex4(u.vid)),
            pid: Some(hex4(u.pid)),
        },
        FoundKind::Pci => bare_port(port.path.as_str(), "pci"),
        FoundKind::Bluetooth => bare_port(port.path.as_str(), "bluetooth"),
        FoundKind::Unknown => bare_port(port.path.as_str(), "unknown"),
    }
}

fn bare_port(path: &str, kind: &str) -> (info: PortInfo)
    ensures
        info.path@ == path@,
        info.kind@ == kind@,
        info.manufacturer is None,
        info.product is None,
        info.serial_number is None,
        info.vid is None,
        info.pid is None,
{
    PortInfo {
        path: path.to_owned(),
        kind: kind.to_owned(),
        manufacturer: None,
        product: None,
        serial_number: None,
        vid: None,
        pid: None,
    }
}

/// Reports the ports the daemon's machine knows about. Where they cannot be
/// enumerated (`None`) the list is empty, so callers see a stable shape.
pub fn list_ports(found: &Option<Vec<FoundPort>>) -> (r: ListPortsResult)
    ensures
        match *found {
            Some(ports) => r.ports@.len() == ports@.len() && forall|i: int|
                0 <= i < ports@.len() ==> is_port_info(#[trigger] r.ports@[i], ports@[i]),
            None => r.ports@.len() == 0,
        },
{
    let mut out: Vec<PortInfo> = Vec::new();
    if let Some(ports) = found {
        let mut i: usize = 0;
        while i < ports.len()
            invariant
                i <= ports@.len(),
                out@.len() == i,
                forall|j: int| 0 <= j < i ==> is_port_info(#[trigger] out@[j], ports@[j]),
            decreases ports@.len() - i,
        {
            out.push(port_info(&ports[i]));
            i = i + 1;
        }
    }
    ListPortsResult { ports: out }
}

// ---------- set_device ----------

/// The request names a value that is no setting.
pub open spec fn has_bad_setting(p: SetDeviceParams) -> bool {
    ||| p.data_bits matches Some(n) && DataBits::of_count(n as int) is None
    ||| p.parity matches Some(s) && Parity::of_word(s@) is None
    ||| p.stop_bits matches Some(n) && StopBits::of_count(n as int) is None
    ||| p.flow_control matches Some(s) && FlowControl::of_word(s@) is None
}

/// What is said about the first bad value of a request.
pub open spec fn bad_setting_message(p: SetDeviceParams) -> Seq<char> {
    if p.data_bits matches Some(n) && DataBits::of_count(n as int) is None {
        "data_bits must be 5..=8, got "@ + decimal(p.data_bits.unwrap() as nat)
    } else if p.parity matches Some(s) && Parity::of_word(s@) is None {
        "parity must be none|odd|even, got "@ + quoted_text(p.parity.unwrap()@)
    } else if p.stop_bits matches Some(n) && StopBits::of_count(n as int) is None {
        "stop_bits must be 1 or 2, got "@ + decimal(p.stop_bits.unwrap() as nat)
    } else {
        "flow_control must be none|software|hardware, got "@ + quoted_text(
            p.flow_control.unwrap()@,
        )
    }
}

/// The request asks for these settings.
pub open spec fn asks_for(p: SetDeviceParams, s: SerialSettings) -> bool {
    &&& s.baud == p.baud
    &&& s.data_bits == (match p.data_bits {
        Some(n) => DataBits::of_count(n as int),
        None => None,
    })
    &&& s.parity == (match p.parity {
        Some(w) => Parity::of_word(w@),
        None => None,
    })
    &&& s.stop_bits == (match p.stop_bits {
        Some(n) => StopBits::of_count(n as int),
        None => None,
    })
    &&& s.flow_control == (match p.flow_control {
        Some(w) => FlowControl::of_word(w@),
        None => None,
    })
}

/// `<what>, got <value>` as an invalid setting.
pub fn bad_setting(what: &str, got: &str) -> (e: ProtocolError)
    ensures
        e.says(ErrorCode::InvalidSerialSetting, what@ + got@),
{
    let msg = cat2(what, got);
    err_with(ErrorCode::InvalidSerialSetting, msg.as_str())
}

/// Validates every requested change first, so that an update is never
/// half-applied because one of its values is no setting.
pub fn requested_settings(p: &SetDeviceParams) -> (r: Result<SerialSettings, ProtocolError>)
    ensures
        match r {
            Ok(s) => !has_bad_setting(*p) && asks_for(*p, s) && !s.is_empty_spec(),
            Err(e) => if has_bad_setting(*p) {
                e.says(ErrorCode::InvalidSerialSetting, bad_setting_message(*p))
            } else {
                &&& p.baud is None && p.data_bits is None && p.parity is None && p.stop_bits is None
                    && p.flow_control is None
                &&& e.says(
                    ErrorCode::InvalidParams,
                    "set_device requires at least one of baud/data_bits/parity/stop_bits/flow_control"@,
                )
            },
        },
{
    let data_bits = match p.data_bits {
        Some(n) => match DataBits::from_u8(n) {
            Some(b) => Some(b),
            None => {
                return Err(
                    bad_setting("data_bits must be 5..=8, got ", dec_u64(n as u64).as_str()),
                );
            },
        },
        None => None,
    };
    let parity = match &p.parity {
        Some(s) => match Parity::parse(s.as_str()) {
            Some(v) => Some(v),
            None => {
                return Err(
                    bad_setting(
                        "parity must be none|odd|even, got ",
                        quoted(s.as_str()).as_str(),
                    ),
                );
            },
        },
        None => None,
    };
    let stop_bits = match p.stop_bits {
        Some(n) => match StopBits::from_u8(n) {
            Some(b) => Some(b),
            None => {
                return Err(
                    bad_setting("stop_bits must be 1 or 2, got ", dec_u64(n as u64).as_str()),
                );
            },
        },
        None => None,
    };
    let flow_control = match &p.flow_control {
        Some(s) => match FlowControl::parse(s.as_str()) {
            Some(v) => Some(v),
            None => {
                return Err(
                    bad_setting(
                        "flow_control must be none|software|hardware, got ",
                        quoted(s.as_str()).as_str(),
                    ),
                );
            },
        },
        None => None,
    };
    let s = SerialSettings { baud: p.baud, data_bits, parity, stop_bits, flow_control };
    if s.is_empty() {
        return Err(
            err_with(
                ErrorCode::InvalidParams,
                "set_device requires at least one of baud/data_bits/parity/stop_bits/flow_control",
            ),
        );
    }
    Ok(s)
}

/// Checks a `set_device` request: which device gets which settings.
pub fn set_device(state: &DaemonState, p: &SetDeviceParams) -> (r: Result<
    (usize, SerialSettings),
    ProtocolError,
>)
    requires
        state.wf(),
    ensures
        match r {
            Ok((i, s)) => !has_bad_setting(*p) && asks_for(*p, s) && !s.is_empty_spec()
                && state.resolves(opt_view(p.device_id), i as int) && i < state.devices@.len(),
            Err(e) => if has_bad_setting(*p) {
                e.says(ErrorCode::InvalidSerialSetting, bad_setting_message(*p))
            } else if p.baud is None && p.data_bits is None && p.parity is None && p.stop_bits is None
                && p.flow_control is None {
                e.says(
                    ErrorCode::InvalidParams,
                    "set_device requires at least one of baud/data_bits/parity/stop_bits/flow_control"@,
                )
            } else {
                is_resolve_error(state, opt_view(p.device_id), e)
            },
        },
{
    match requested_settings(p) {
        Ok(s) => match target(state, &p.device_id) {
            Ok(i) => Ok((i, s)),
            Err(e) => Err(e),
        },
        Err(e) => Err(e),
    }
}

/// The letter that stands for a parity in a summary.
pub open spec fn parity_letter(p: Parity) -> Seq<char> {
    match p {
        Parity::Disabled => "N"@,
        Parity::Odd => "O"@,
        Parity::Even => "E"@,
    }
}

/// `config changed: <baud> <data bits><parity><stop bits> flow=<flow control>`.
pub open spec fn config_summary(cfg: SerialConfig) -> Seq<char> {
    "config changed: "@ + decimal(cfg.baud as nat) + " "@ + decimal(cfg.data_bits.count() as nat)
        + parity_letter(cfg.parity) + decimal(cfg.stop_bits.count() as nat) + " flow="@
        + cfg.flow_control.name()
}

/// A short summary of a configuration for UIs.
pub fn summarize_config(cfg: &SerialConfig) -> (s: String)
    ensures
        s@ == config_summary(*cfg),
{
    let letter = match cfg.parity {
        Parity::Disabled => "N",
        Parity::Odd => "O",
        Parity::Even => "E",
    };
    let mut s = "config changed: ".to_owned();
    s.append(dec_u64(cfg.baud as u64).as_str());
    s.append(" ");
    s.append(dec_u64(cfg.data_bits.as_u8() as u64).as_str());
    s.append(letter);
    s.append(dec_u64(cfg.stop_bits.as_u8() as u64).as_str());
    s.append(" flow=");
    s.append(cfg.flow_control.as_str());
    s
}

/// Answers a `set_device` once the port took the settings or refused them. On
/// success every attached client is told about the new configuration.
pub fn set_device_finished(device: &Device, outcome: &Result<(), IoFault>) -> (r: Result<
    (SetDeviceResult, DeviceEvent),
    ProtocolError,
>)
    ensures
        match *outcome {
            Ok(()) => r matches Ok(x) && {
                &&& describes(x.0.device, *device)
                &&& x.1.kind is ConfigChanged
                &&& opt_view(x.1.detail) == Some(config_summary(device.config))
            },
            Err(f) => r matches Err(e) && e.says(
                match f.kind {
                    FaultKind::Unsupported => ErrorCode::UnsupportedSerialOp,
                    FaultKind::NotConnected => ErrorCode::DeviceDisconnected,
                    FaultKind::Other => ErrorCode::InvalidSerialSetting,
                },
                f.message@,
            ),
        },
{
    match outcome {
        Ok(()) => Ok(
            (
                SetDeviceResult { device: describe(device) },
                DeviceEvent {
                    kind: DeviceEventKind::ConfigChanged,
                    detail: Some(summarize_config(&device.config)),
                },
            ),
        ),
        Err(f) => Err(apply_error_to_proto(f)),
    }
}

// ---------- Line control, connect, disconnect ----------

/// Why a `device_id` names no device.
pub open spec fn is_resolve_error(
    state: &DaemonState,
    id: Option<Seq<char>>,
    e: ProtocolError,
) -> bool {
    match id {
        Some(name) => !crate::state::has_device(state.devices@, name) && e.says(
            ErrorCode::DeviceNotFound,
            "device "@ + quoted_text(name) + " not managed by this daemon"@,
        ),
        None => state.devices@.len() != 1 && e.says(
            ErrorCode::AmbiguousDevice,
            "daemon serves "@ + decimal(state.devices@.len())
                + " devices; pass device_id to select one"@,
        ),
    }
}

/// The device that a request with this `device_id` goes to.
pub fn target(state: &DaemonState, device_id: &Option<String>) -> (r: Result<usize, ProtocolError>)
    requires
        state.wf(),
    ensures
        match r {
            Ok(i) => i < state.devices@.len() && state.resolves(opt_view(*device_id), i as int),
            Err(e) => is_resolve_error(state, opt_view(*device_id), e),
        },
{
    state.resolve_device(crate::text::opt_as_str(device_id))
}

/// `r` hands `msg` to the device that a request with this `device_id` goes to,
/// or says why there is none.
pub open spec fn is_order(
    state: &DaemonState,
    device_id: Option<String>,
    msg: ControlMsg,
    r: Result<(usize, ControlMsg), ProtocolError>,
) -> bool {
    match r {
        Ok((i, m)) => i < state.devices@.len() && state.resolves(opt_view(device_id), i as int) && m
            == msg,
        Err(e) => is_resolve_error(state, opt_view(device_id), e),
    }
}

fn order(state: &DaemonState, device_id: &Option<String>, msg: ControlMsg) -> (r: Result<
    (usize, ControlMsg),
    ProtocolError,
>)
    requires
        state.wf(),
    ensures
        is_order(state, *device_id, msg, r),
{
    match target(state, device_id) {
        Ok(i) => Ok((i, msg)),
        Err(e) => Err(e),
    }
}

/// What `send_break` asks of which device.
pub fn send_break(state: &DaemonState, p: &SendBreakParams) -> (r: Result<
    (usize, ControlMsg),
    ProtocolError,
>)
    requires
        state.wf(),
    ensures
        is_order(state, p.device_id, ControlMsg::SendBreak(p.duration_ms), r),
{
    order(state, &p.device_id, ControlMsg::SendBreak(p.duration_ms))
}

/// What `set_dtr` asks of which device.
pub fn set_dtr(state: &DaemonState, p: &SetLineParams) -> (r: Result<
    (usize, ControlMsg),
    ProtocolError,
>)
    requires
        state.wf(),
    ensures
        is_order(state, p.device_id, ControlMsg::SetDtr(p.on), r),
{
    order(state, &p.device_id, ControlMsg::SetDtr(p.on))
}

/// What `set_rts` asks of which device.
pub fn set_rts(state: &DaemonState, p: &SetLineParams) -> (r: Result<
    (usize, ControlMsg),
    ProtocolError,
>)
    requires
        state.wf(),
    ensures
        is_order(state, p.device_id, ControlMsg::SetRts(p.on), r),
{
    order(state, &p.device_id, ControlMsg::SetRts(p.on))
}

/// What `read_modem_status` asks of which device.
pub fn read_modem_status(state: &DaemonState, p: &DeviceTarget) -> (r: Result<
    (usize, ControlMsg),
    ProtocolError,
>)
    requires
        state.wf(),
    ensures
        is_order(state, p.device_id, ControlMsg::ReadModem, r),
{
    order(state, &p.device_id, ControlMsg::ReadModem)
}

/// What `disconnect_device` asks of which device.
pub fn disconnect_device(state: &DaemonState, p: &DeviceTarget) -> (r: Result<
    (usize, ControlMsg),
    ProtocolError,
>)
    requires
        state.wf(),
    ensures
        is_order(state, p.device_id, ControlMsg::Disconnect, r),
{
    order(state, &p.device_id, ControlMsg::Disconnect)
}

/// What `connect_device` asks of which device.
pub fn connect_device(state: &DaemonState, p: &DeviceTarget) -> (r: Result<
    (usize, ControlMsg),
    ProtocolError,
>)
    requires
        state.wf(),
    ensures
        is_order(state, p.device_id, ControlMsg::Connect, r),
{
    order(state, &p.device_id, ControlMsg::Connect)
}

/// Answers a line operation once the port performed it or failed to.
pub fn line_finished(outcome: &Result<(), IoFault>) -> (r: Result<AckResult, ProtocolError>)
    ensures
        match *outcome {
            Ok(()) => r matches Ok(a) && a.ok,
            Err(f) => r matches Err(e) && e.says(
                match f.kind {
                    FaultKind::Unsupported => ErrorCode::UnsupportedSerialOp,
                    FaultKind::NotConnected => ErrorCode::DeviceDisconnected,
                    FaultKind::Other => ErrorCode::InternalError,
                },
                f.message@,
            ),
        },
{
    match outcome {
        Ok(()) => Ok(AckResult { ok: true }),
        Err(f) => Err(ctrl_io_to_proto(f)),
    }
}

/// Answers a `disconnect_device` with the device as it is now.
pub fn disconnect_finished(device: &Device) -> (r: DisconnectDeviceResult)
    ensures
        describes(r.device, *device),
{
    DisconnectDeviceResult { device: describe(device) }
}

/// Answers a `connect_device` with the device as it is now.
pub fn connect_finished(device: &Device) -> (r: ConnectDeviceResult)
    ensures
        describes(r.device, *device),
        r.connected == device.state.connected,
{
    ConnectDeviceResult { device: describe(device), connected: device.state.connected }
}

/// How long `connect_device` waits for the port before it answers.
pub const CONNECT_WAIT_MS: u64 = 2000;

// ---------- list_devices ----------

/// `row` summarises a device.
pub open spec fn is_summary(row: DeviceSummary, device: Device) -> bool {
    &&& row.id@ == device.id@
    &&& row.path@ == device.config.path@
    &&& row.baud == device.config.baud
    &&& row.data_bits == device.config.data_bits.count()
    &&& row.parity@ == device.config.parity.name()
    &&& row.stop_bits == device.config.stop_bits.count()
    &&& row.flow_control@ == device.config.flow_control.name()
    &&& row.connected == device.state.connected
    &&& row.explicitly_disconnected == device.state.explicitly_disconnected
    &&& row.shell@ == device.console.shell@
    &&& opt_view(row.prompt) == opt_view(device.console.prompt)
    &&& opt_view(row.newline) == opt_view(device.console.newline)
}

fn summarize(device: &Device) -> (row: DeviceSummary)
    ensures
        is_summary(row, *device),
{
    DeviceSummary {
        id: device.id.clone(),
        path: device.config.path.clone(),
        baud: device.config.baud,
        data_bits: device.config.data_bits.as_u8(),
        parity: device.config.parity.as_str().to_owned(),
        stop_bits: device.config.stop_bits.as_u8(),
        flow_control: device.config.flow_control.as_str().to_owned(),
        connected: device.state.connected,
        explicitly_disconnected: device.state.explicitly_disconnected,
        shell: device.console.shell.clone(),
        prompt: clone_opt(&device.console.prompt),
        newline: clone_opt(&device.console.newline),
    }
}

/// The listing order of device ids: the default first, then alphabetical.
pub open spec fn listed_before(a: Seq<char>, b: Seq<char>, default: Seq<char>) -> bool {
    a == default || (b != default && lex_le(a, b))
}

fn goes_before(a: &str, b: &str, default: &str) -> (r: bool)
    ensures
        r == listed_before(a@, b@, default@),
{
    str_eq(a, default) || (!str_eq(b, default) && str_le(a, b))
}

/// The rows stand in listing order.
pub open spec fn in_listing_order(rows: Seq<DeviceSummary>, default: Seq<char>) -> bool {
    forall|i: int, j: int|
        0 <= i < j < rows.len() ==> listed_before(
            (#[trigger] rows[i]).id@,
            (#[trigger] rows[j]).id@,
            default,
        )
}

/// `order` says which of the first `n` devices each row summarises; every one
/// of them has exactly one row.
pub open spec fn summarises(
    rows: Seq<DeviceSummary>,
    devices: Seq<Device>,
    n: int,
    order: Seq<int>,
) -> bool {
    &&& rows.len() == order.len() == n
    &&& order.no_duplicates()
    &&& forall|i: int|
        0 <= i < rows.len() ==> 0 <= #[trigger] order[i] < n && is_summary(
            rows[i],
            devices[order[i]],
        )
}

/// Inserts a row where it belongs.
fn insert_row(rows: &mut Vec<DeviceSummary>, row: DeviceSummary, default: &str) -> (at: usize)
    requires
        in_listing_order(old(rows)@, default@),
    ensures
        at <= old(rows)@.len(),
        final(rows)@ == old(rows)@.insert(at as int, row),
        in_listing_order(final(rows)@, default@),
{
    let mut at: usize = 0;
    while at < rows.len() && goes_before(rows[at].id.as_str(), row.id.as_str(), default)
        invariant
            at <= rows@.len(),
            *rows == *old(rows),
            forall|j: int|
                0 <= j < at ==> listed_before((#[trigger] rows@[j]).id@, row.id@, default@),
        decreases rows@.len() - at,
    {
        at = at + 1;
    }
    let ghost before = rows@;
    let ghost new_id = row.id@;
    proof {
        if at < before.len() {
            lemma_lex_total(before[at as int].id@, new_id);
            assert(listed_before(new_id, before[at as int].id@, default@));
        }
        assert forall|j: int| at <= j < before.len() implies listed_before(
            new_id,
            (#[trigger] before[j]).id@,
            default@,
        ) by {
            if j > at {
                assert(listed_before(before[at as int].id@, before[j].id@, default@));
                if new_id != default@ && before[at as int].id@ != default@ {
                    lemma_lex_transitive(new_id, before[at as int].id@, before[j].id@);
                }
            }
        }
    }
    rows.insert(at, row);
    proof {
        let after = rows@;
        assert forall|i: int, j: int| 0 <= i < j < after.len() implies listed_before(
            (#[trigger] after[i]).id@,
            (#[trigger] after[j]).id@,
            default@,
        ) by {
            if i < at {
                assert(after[i] == before[i]);
            } else if i > at {
                assert(after[i] == before[i - 1]);
            }
            if j < at {
                assert(after[j] == before[j]);
            } else if j > at {
                assert(after[j] == before[j - 1]);
            }
        }
    }
    at
}

/// Lists the devices this daemon owns, the default first and the others in
/// alphabetical order.
pub fn list_devices(state: &DaemonState) -> (r: ListDevicesResult)
    ensures
        r.default_device@ == state.default_device@,
        in_listing_order(r.devices@, state.default_device@),
        exists|order: Seq<int>|
            #[trigger] summarises(
                r.devices@,
                state.devices@,
                state.devices@.len() as int,
                order,
            ),
{
    let mut rows: Vec<DeviceSummary> = Vec::new();
    let ghost mut order: Seq<int> = Seq::empty();
    let mut i: usize = 0;
    while i < state.devices.len()
        invariant
            i <= state.devices@.len(),
            in_listing_order(rows@, state.default_device@),
            summarises(rows@, state.devices@, i as int, order),
        decreases state.devices@.len() - i,
    {
        let ghost rows_before = rows@;
        let ghost order_before = order;
        let row = summarize(&state.devices[i]);
        let at: usize = insert_row(&mut rows, row, state.default_device.as_str());
        proof {
            order = order_before.insert(at as int, i as int);
            assert forall|k: int| 0 <= k < rows@.len() implies 0 <= #[trigger] order[k] < i + 1
                && is_summary(rows@[k], state.devices@[order[k]]) by {
                if k < at {
                    assert(order[k] == order_before[k]);
                } else if k > at {
                    assert(order[k] == order_before[k - 1]);
                }
            }
            assert forall|a: int, b: int|
                0 <= a < order.len() && 0 <= b < order.len() && a != b implies order[a]
                != order[b] by {
                let a2 = if a < at { a } else { a - 1 };
                let b2 = if b < at { b } else { b - 1 };
                if a != at {
                    assert(order[a] == order_before[a2]);
                }
                if b != at {
                    assert(order[b] == order_before[b2]);
                }
            }
        }
        i = i + 1;
    }
    assert(summarises(rows@, state.devices@, state.devices@.len() as int, order));
    ListDevicesResult { devices: rows, default_device: state.default_device.clone() }
}

/// In a listing the default device comes first.
pub proof fn law_default_listed_first(
    rows: Seq<DeviceSummary>,
    devices: Seq<Device>,
    default: Seq<char>,
    order: Seq<int>,
)
    requires
        in_listing_order(rows, default),
        summarises(rows, devices, devices.len() as int, order),
        crate::state::has_device(devices, default),
    ensures
        rows.len() > 0,
        rows[0].id@ == default,
{
    let d = choose|d: int| is_device_at(devices, default, d);
    assert(order.contains(d)) by {
        lemma_order_covers(order, devices.len() as int, d);
    }
    let i = choose|i: int| 0 <= i < order.len() && order[i] == d;
    assert(rows[i].id@ == default);
    if i > 0 {
        assert(listed_before(rows[0].id@, rows[i].id@, default));
    }
}

/// Distinct numbers below `n`, as many as there are, are all of them.
proof fn lemma_order_covers(order: Seq<int>, n: int, d: int)
    requires
        order.len() == n,
        order.no_duplicates(),
        forall|i: int| 0 <= i < order.len() ==> 0 <= #[trigger] order[i] < n,
        0 <= d < n,
    ensures
        order.contains(d),
{
    let s = order.to_set();
    order.unique_seq_to_set();
    let all = vstd::set_lib::set_int_range(0, n);
    vstd::set_lib::lemma_int_range(0, n);
    assert(s.subset_of(all)) by {
        assert forall|x: int| s.contains(x) implies all.contains(x) by {
            let i = choose|i: int| 0 <= i < order.len() && order[i] == x;
            assert(0 <= order[i] < n);
        }
    }
    vstd::set_lib::lemma_subset_equality(s, all);
    assert(s.contains(d));
}

} // verus!
