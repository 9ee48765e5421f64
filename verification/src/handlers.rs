//! The RPC methods as state transitions.
//!
//! Each method checks its request against the shared state and changes it, or
//! says what is to be done on the wire and how the outcome is answered.

use vstd::prelude::*;
use vstd::string::*;

use crate::conn::ConnState;
use crate::encoding::{b64_decode, base64_bytes};
use crate::error::{err_with, ErrorCode, ProtocolError};
use crate::expect::{ExpectRequest, ExpectState, ExpectStep, Interrupt};
use crate::ids::{fresh_uuid_v7, is_uuid_v7_text};
use crate::lock::{
    acquire_lock, after_acquire, after_transient_release, held_by_other,
    reject_if_exclusively_locked, release_lock_if_holder, release_transient_hold, seized_from,
    write_refused, LockAttempt,
};
use crate::message::{
    AttachParams, AttachResult, BufferInfo, DetachParams, DeviceInfo, ExpectParams, HelloParams,
    HelloResult, LockParams, ReplaySpec, RunParams, SendParams, SendResult, UnlockParams,
    PROTOCOL_VERSION,
};
use crate::pattern::regex_error;
use crate::scan::constant_time_eq;
use crate::serial::{FaultKind, IoFault, SerialConfig};
use crate::session::{without, FlowControl, Session, SessionMode};
use crate::state::{
    has_device, is_device_at, lock_sound, only_device_changed, same_but_lock, ConsolePersonality,
    DaemonState, Device,
};
use crate::text::{
    cat2, cat4, clone_opt, decimal, opt_as_str, opt_str_view, opt_view, quoted, quoted_text, str_eq,
    views,
};

verus! {

pub const SERVER_VERSION: &'static str = "0.11.0";

// ---------- Descriptions ----------

/// `info` describes a port with this configuration and personality.
pub open spec fn is_device_info(
    info: DeviceInfo,
    cfg: SerialConfig,
    connected: bool,
    console: ConsolePersonality,
    id: Option<Seq<char>>,
) -> bool {
    &&& info.path@ == cfg.path@
    &&& info.baud == cfg.baud
    &&& info.data_bits == cfg.data_bits.count()
    &&& info.parity@ == cfg.parity.name()
    &&& info.stop_bits == cfg.stop_bits.count()
    &&& info.flow_control@ == cfg.flow_control.name()
    &&& info.connected == connected
    &&& opt_view(info.id) == id
    &&& info.shell@ == console.shell@
    &&& opt_view(info.prompt) == opt_view(console.prompt)
    &&& opt_view(info.newline) == opt_view(console.newline)
}

/// Puts a configuration into wire form, without a device id.
pub fn device_info_from(
    cfg: &SerialConfig,
    connected: bool,
    console: &ConsolePersonality,
) -> (info: DeviceInfo)
    ensures
        is_device_info(info, *cfg, connected, *console, None),
{
    DeviceInfo {
        path: cfg.path.clone(),
        baud: cfg.baud,
        data_bits: cfg.data_bits.as_u8(),
        parity: cfg.parity.as_str().to_owned(),
        stop_bits: cfg.stop_bits.as_u8(),
        flow_control: cfg.flow_control.as_str().to_owned(),
        connected,
        id: None,
        shell: console.shell.clone(),
        prompt: clone_opt(&console.prompt),
        newline: clone_opt(&console.newline),
    }
}

/// `info` describes this device as it is now.
pub open spec fn describes(info: DeviceInfo, device: Device) -> bool {
    is_device_info(info, device.config, device.state.connected, device.console, Some(device.id@))
}

/// Puts a device into wire form.
pub fn describe(device: &Device) -> (info: DeviceInfo)
    ensures
        describes(info, *device),
{
    let mut info = device_info_from(&device.config, device.state.connected, &device.console);
    info.id = Some(device.id.clone());
    info
}

/// `info` describes this device's ring.
pub open spec fn is_buffer_info(info: BufferInfo, device: Device) -> bool {
    &&& info.capacity_bytes == device.buffer.limit()
    &&& info.head_seq == device.buffer.head()
    &&& info.tail_seq == device.buffer.tail()
}

pub fn buffer_info(device: &Device) -> (info: BufferInfo)
    requires
        device.wf(),
    ensures
        is_buffer_info(info, *device),
{
    let (head, tail) = device.buffer.snapshot_seqs();
    BufferInfo {
        capacity_bytes: device.buffer.capacity() as u64,
        head_seq: head,
        tail_seq: tail,
    }
}

// ---------- Failures of the port ----------

/// Maps a failed write into the right protocol error: a port that is waiting
/// to be reopened counts as disconnected.
pub fn writer_error_to_proto(f: &IoFault) -> (e: ProtocolError)
    ensures
        e.says(
            if f.kind is NotConnected {
                ErrorCode::DeviceDisconnected
            } else {
                ErrorCode::InternalError
            },
            f.message@,
        ),
{
    match f.kind {
        FaultKind::NotConnected => err_with(ErrorCode::DeviceDisconnected, f.message.as_str()),
        _ => err_with(ErrorCode::InternalError, f.message.as_str()),
    }
}

/// Maps a failed line-control operation into the right protocol error.
pub fn ctrl_io_to_proto(f: &IoFault) -> (e: ProtocolError)
    ensures
        e.says(
            match f.kind {
                FaultKind::Unsupported => ErrorCode::UnsupportedSerialOp,
                FaultKind::NotConnected => ErrorCode::DeviceDisconnected,
                FaultKind::Other => ErrorCode::InternalError,
            },
            f.message@,
        ),
{
    match f.kind {
        FaultKind::Unsupported => err_with(ErrorCode::UnsupportedSerialOp, f.message.as_str()),
        FaultKind::NotConnected => err_with(ErrorCode::DeviceDisconnected, f.message.as_str()),
        FaultKind::Other => err_with(ErrorCode::InternalError, f.message.as_str()),
    }
}

/// Maps a failed change of settings into the right protocol error.
pub fn apply_error_to_proto(f: &IoFault) -> (e: ProtocolError)
    ensures
        e.says(
            match f.kind {
                FaultKind::Unsupported => ErrorCode::UnsupportedSerialOp,
                FaultKind::NotConnected => ErrorCode::DeviceDisconnected,
                FaultKind::Other => ErrorCode::InvalidSerialSetting,
            },
            f.message@,
        ),
{
    match f.kind {
        FaultKind::Unsupported => err_with(ErrorCode::UnsupportedSerialOp, f.message.as_str()),
        FaultKind::NotConnected => err_with(ErrorCode::DeviceDisconnected, f.message.as_str()),
        FaultKind::Other => err_with(ErrorCode::InvalidSerialSetting, f.message.as_str()),
    }
}

// ---------- hello ----------

/// The token a client supplied admits it: one is expected, one was given, and
/// they are the same.
pub open spec fn token_accepted(expected: Option<String>, supplied: Option<String>) -> bool {
    expected is Some && opt_view(expected) == opt_view(supplied)
}

fn check_token(expected: &Option<String>, supplied: &Option<String>) -> (ok: bool)
    ensures
        ok == token_accepted(*expected, *supplied),
{
    match (expected, supplied) {
        (Some(e), Some(g)) => {
            proof {
                vstd::utf8::encode_utf8_decode_utf8(e@);
                vstd::utf8::encode_utf8_decode_utf8(g@);
            }
            constant_time_eq(e.as_str().as_bytes(), g.as_str().as_bytes())
        },
        _ => false,
    }
}

/// Greets a client. It must speak this protocol version, and over a transport
/// that requires authentication it must know the token.
pub fn hello(state: &DaemonState, conn: &mut ConnState, p: &HelloParams) -> (r: Result<
    HelloResult,
    ProtocolError,
>)
    requires
        state.wf(),
        old(conn).wf(),
    ensures
        final(conn).wf(),
        match r {
            Ok(h) => {
                &&& p.protocol_version@ == PROTOCOL_VERSION@
                &&& old(conn).needs_token() ==> token_accepted(state.auth_token, p.auth_token)
                &&& final(conn).greeted()
                &&& final(conn).kind() == Some(p.client.kind@)
                &&& final(conn).needs_token() == old(conn).needs_token()
                &&& final(conn).owned() == old(conn).owned()
                &&& h.server_version@ == SERVER_VERSION@
                &&& h.protocol_version@ == PROTOCOL_VERSION@
                &&& exists|i: int|
                    is_device_at(state.devices@, state.default_device@, i) && describes(
                        h.device,
                        #[trigger] state.devices@[i],
                    ) && is_buffer_info(h.buffer, state.devices@[i])
            },
            Err(e) => {
                &&& *final(conn) == *old(conn)
                &&& if p.protocol_version@ != PROTOCOL_VERSION@ {
                    e.says(
                        ErrorCode::UnsupportedProtocol,
                        "server supports "@ + PROTOCOL_VERSION@ + ", got "@ + p.protocol_version@,
                    )
                } else {
                    &&& old(conn).needs_token() && !token_accepted(state.auth_token, p.auth_token)
                    &&& e.says(ErrorCode::Unauthorized, "auth token missing or incorrect"@)
                }
            },
        },
{
    if !str_eq(p.protocol_version.as_str(), PROTOCOL_VERSION) {
        let msg = cat4(
            "server supports ",
            PROTOCOL_VERSION,
            ", got ",
            p.protocol_version.as_str(),
        );
        return Err(err_with(ErrorCode::UnsupportedProtocol, msg.as_str()));
    }
    if conn.requires_auth() && !check_token(&state.auth_token, &p.auth_token) {
        return Err(err_with(ErrorCode::Unauthorized, "auth token missing or incorrect"));
    }
    conn.set_initialized(p.client.kind.as_str());
    let i: usize = state.default_index();
    let device = &state.devices[i];
    Ok(
        HelloResult {
            server_version: SERVER_VERSION.to_owned(),
            protocol_version: PROTOCOL_VERSION.to_owned(),
            device: describe(device),
            buffer: buffer_info(device),
        },
    )
}

// ---------- attach / detach ----------

/// A checked `attach` request.
#[derive(Debug, Clone, Copy)]
pub struct AttachPlan {
    pub device: usize,
    pub mode: SessionMode,
    pub flow_control: FlowControl,
    pub cursor: u64,
}

/// Where a session that asks for this replay starts to read.
pub open spec fn replay_cursor(replay: ReplaySpec, device: Device) -> Option<int> {
    match replay {
        ReplaySpec::Named(s) => if s@ == "start"@ {
            Some(device.buffer.tail() as int)
        } else if s@ == "now"@ {
            Some(device.buffer.head() as int)
        } else {
            None
        },
        ReplaySpec::FromSeq { seq } => Some(seq as int),
    }
}

/// Why an `attach` request is refused; the first reason counts.
pub open spec fn is_attach_error(
    state: &DaemonState,
    conn: &ConnState,
    p: AttachParams,
    e: ProtocolError,
) -> bool {
    if !conn.greeted() {
        e.is_plain(ErrorCode::NotInitialized)
    } else if SessionMode::of_word(p.mode@) is None {
        e.says(ErrorCode::InvalidParams, "bad mode: "@ + p.mode@)
    } else if FlowControl::of_word(p.flow_control@) is None {
        e.says(ErrorCode::InvalidParams, "bad flow_control: "@ + p.flow_control@)
    } else if p.device_id matches Some(name) && !has_device(state.devices@, name@) {
        e.says(
            ErrorCode::DeviceNotFound,
            "device "@ + quoted_text(p.device_id->Some_0@) + " not managed by this daemon"@,
        )
    } else if p.device_id is None && state.devices@.len() != 1 {
        e.says(
            ErrorCode::AmbiguousDevice,
            "daemon serves "@ + decimal(state.devices@.len())
                + " devices; pass device_id to select one"@,
        )
    } else if p.replay matches ReplaySpec::Named(s) && s@ != "start"@ && s@ != "now"@ {
        e.says(ErrorCode::InvalidParams, "bad replay: "@ + p.replay->Named_0@)
    } else {
        &&& p.session_id is Some
        &&& e.says(ErrorCode::SessionNotFound, "session restore not supported in v0"@)
    }
}

/// Checks an `attach` request.
pub fn attach_plan(state: &DaemonState, conn: &ConnState, p: &AttachParams) -> (r: Result<
    AttachPlan,
    ProtocolError,
>)
    requires
        state.wf(),
    ensures
        match r {
            Ok(plan) => {
                &&& conn.greeted()
                &&& SessionMode::of_word(p.mode@) == Some(plan.mode)
                &&& FlowControl::of_word(p.flow_control@) == Some(plan.flow_control)
                &&& plan.device < state.devices@.len()
                &&& state.resolves(opt_view(p.device_id), plan.device as int)
                &&& replay_cursor(p.replay, state.devices@[plan.device as int]) == Some(
                    plan.cursor as int,
                )
                &&& p.session_id is None
            },
            Err(e) => is_attach_error(state, conn, *p, e),
        },
{
    if !conn.is_initialized() {
        return Err(ProtocolError::new(ErrorCode::NotInitialized));
    }
    let mode = match SessionMode::parse(p.mode.as_str()) {
        Some(m) => m,
        None => {
            let msg = cat2("bad mode: ", p.mode.as_str());
            return Err(err_with(ErrorCode::InvalidParams, msg.as_str()));
        },
    };
    let flow_control = match FlowControl::parse(p.flow_control.as_str()) {
        Some(f) => f,
        None => {
            let msg = cat2("bad flow_control: ", p.flow_control.as_str());
            return Err(err_with(ErrorCode::InvalidParams, msg.as_str()));
        },
    };
    let device: usize = match state.resolve_device(opt_as_str(&p.device_id)) {
        Ok(i) => i,
        Err(e) => {
            return Err(e);
        },
    };
    let (head, tail) = state.devices[device].buffer.snapshot_seqs();
    let cursor: u64 = match &p.replay {
        ReplaySpec::Named(s) => {
            if str_eq(s.as_str(), "start") {
                tail
            } else if str_eq(s.as_str(), "now") {
                head
            } else {
                let msg = cat2("bad replay: ", s.as_str());
                return Err(err_with(ErrorCode::InvalidParams, msg.as_str()));
            }
        },
        ReplaySpec::FromSeq { seq } => *seq,
    };
    if p.session_id.is_some() {
        return Err(err_with(ErrorCode::SessionNotFound, "session restore not supported in v0"));
    }
    Ok(AttachPlan { device, mode, flow_control, cursor })
}

/// Every lock that session `sid` held is free; no device changed otherwise.
pub open spec fn locks_freed(before: Seq<Device>, after: Seq<Device>, sid: Seq<char>) -> bool {
    &&& after.len() == before.len()
    &&& forall|j: int|
        0 <= j < before.len() ==> same_but_lock(before[j], #[trigger] after[j]) && after[j].lock@
            == (if before[j].lock@ matches Some(h) && h.0 == sid {
            None
        } else {
            before[j].lock@
        })
}

/// The daemon after session `s` came to be: it is there, and a former session
/// under its id has lost its locks; nothing else changed.
pub open spec fn with_session(before: DaemonState, after: DaemonState, s: Session) -> bool {
    &&& after.default_device == before.default_device
    &&& after.auth_token == before.auth_token
    &&& after.sessions.map() == before.sessions.map().insert(s.id@, s)
    &&& after.sessions.ids() == (if before.sessions.map().contains_key(s.id@) {
        before.sessions.ids()
    } else {
        before.sessions.ids().push(s.id@)
    })
    &&& locks_freed(before.devices@, after.devices@, s.id@)
}

/// What a connection owns once it also owns `sid`.
pub open spec fn owned_with(owned: Seq<Seq<char>>, sid: Seq<char>) -> Seq<Seq<char>> {
    if owned.contains(sid) {
        owned
    } else {
        owned.push(sid)
    }
}

/// Attaches a session under a given id, which the connection then owns.
pub fn attach_as(
    state: &mut DaemonState,
    conn: &mut ConnState,
    plan: AttachPlan,
    id: &str,
    label: Option<String>,
    now_ms: u64,
) -> (r: AttachResult)
    requires
        old(state).wf(),
        old(conn).wf(),
        plan.device < old(state).devices@.len(),
    ensures
        final(state).wf(),
        final(conn).wf(),
        r.session_id@ == id@,
        r.cursor_seq == plan.cursor,
        !r.restored,
        final(conn).same_but_sessions(old(conn)),
        final(conn).owned() == owned_with(old(conn).owned(), id@),
        exists|s: Session|
            #![trigger with_session(*old(state), *final(state), s)]
            with_session(*old(state), *final(state), s) && s.is_new(
                id@,
                old(state).devices@[plan.device as int].id@,
                plan.mode,
                plan.flow_control,
                opt_view(label),
                plan.cursor,
                now_ms,
            ),
{
    let device_id = state.devices[plan.device].id.clone();
    let ghost start = *state;
    if state.sessions.get(id).is_some() {
        let _ = state.release_lock_for_session(id);
    }
    let ghost before = *state;
    state.sessions.create_as(
        id,
        device_id.as_str(),
        plan.mode,
        plan.flow_control,
        label,
        plan.cursor,
        now_ms,
    );
    conn.add_session(id);
    proof {
        let s = state.sessions.map()[id@];
        assert(before.sessions.map().insert(id@, s) =~= state.sessions.map());
        assert forall|j: int| 0 <= j < start.devices@.len() implies same_but_lock(
            start.devices@[j],
            #[trigger] state.devices@[j],
        ) && state.devices@[j].lock@ == (if start.devices@[j].lock@ matches Some(h) && h.0 == id@ {
            None
        } else {
            start.devices@[j].lock@
        }) by {
            assert(lock_sound(start.devices@[j], start.sessions.map()));
        }
        assert(with_session(start, *state, s));
        assert forall|j: int| 0 <= j < state.devices@.len() implies lock_sound(
            #[trigger] state.devices@[j],
            state.sessions.map(),
        ) by {
            assert(lock_sound(before.devices@[j], before.sessions.map()));
            assert(lock_sound(start.devices@[j], start.sessions.map()));
        }
    }
    AttachResult { session_id: id.to_owned(), cursor_seq: plan.cursor, restored: false }
}

/// Attaches a new session to a device; the connection owns it.
pub fn attach(state: &mut DaemonState, conn: &mut ConnState, p: &AttachParams, now_ms: u64) -> (r:
    Result<AttachResult, ProtocolError>)
    requires
        old(state).wf(),
        old(conn).wf(),
    ensures
        final(state).wf(),
        final(conn).wf(),
        match r {
            Ok(a) => {
                let id = a.session_id@;
                &&& is_uuid_v7_text(id)
                &&& !a.restored
                &&& p.session_id is None && old(conn).greeted()
                &&& SessionMode::of_word(p.mode@) is Some
                &&& FlowControl::of_word(p.flow_control@) is Some
                &&& final(conn).same_but_sessions(old(conn))
                &&& final(conn).owned() == owned_with(old(conn).owned(), id)
                &&& with_session(*old(state), *final(state), final(state).sessions.map()[id])
                &&& exists|d: int|
                    #![trigger old(state).devices@[d]]
                    0 <= d < old(state).devices@.len() && old(state).resolves(
                        opt_view(p.device_id),
                        d,
                    ) && replay_cursor(p.replay, old(state).devices@[d]) == Some(
                        a.cursor_seq as int,
                    ) && final(state).sessions.map()[id].is_new(
                        id,
                        old(state).devices@[d].id@,
                        SessionMode::of_word(p.mode@).unwrap(),
                        FlowControl::of_word(p.flow_control@).unwrap(),
                        opt_view(p.label),
                        a.cursor_seq,
                        now_ms,
                    )
            },
            Err(e) => is_attach_error(old(state), old(conn), *p, e) && *final(state) == *old(state)
                && *final(conn) == *old(conn),
        },
{
    match attach_plan(state, conn, p) {
        Ok(plan) => {
            let id = fresh_uuid_v7();
            assert(old(state).devices@[plan.device as int] == state.devices@[plan.device as int]);
            Ok(attach_as(state, conn, plan, id.as_str(), clone_opt(&p.label), now_ms))
        },
        Err(e) => Err(e),
    }
}

/// The daemon after session `sid` ended: its lock, if it held one, is free, and
/// it is gone; nothing else changed.
pub open spec fn without_session(before: DaemonState, after: DaemonState, sid: Seq<char>) -> bool {
    &&& after.default_device == before.default_device
    &&& after.auth_token == before.auth_token
    &&& after.sessions.map() == before.sessions.map().remove(sid)
    &&& after.sessions.ids() == without(before.sessions.ids(), sid)
    &&& locks_freed(before.devices@, after.devices@, sid)
}

/// Attaching a session under a new id and detaching it again restores the
/// sessions, their order and every lock.
pub proof fn law_attach_detach_restores(
    before: DaemonState,
    during: DaemonState,
    after: DaemonState,
    s: Session,
)
    requires
        before.wf(),
        !before.sessions.map().contains_key(s.id@),
        with_session(before, during, s),
        without_session(during, after, s.id@),
    ensures
        after.sessions.map() == before.sessions.map(),
        after.sessions.ids() == before.sessions.ids(),
        after.default_device == before.default_device,
        after.auth_token == before.auth_token,
        after.devices@.len() == before.devices@.len(),
        forall|j: int|
            0 <= j < before.devices@.len() ==> same_but_lock(
                before.devices@[j],
                #[trigger] after.devices@[j],
            ) && after.devices@[j].lock@ == before.devices@[j].lock@,
{
    let ids = before.sessions.ids();
    before.sessions.lemma_ids();
    assert(!ids.contains(s.id@));
    let more = ids.push(s.id@);
    assert(more[ids.len() as int] == s.id@);
    assert forall|k: int| 0 <= k < more.len() && more[k] == s.id@ implies k == ids.len() by {
        if k < ids.len() {
            assert(ids[k] == s.id@);
        }
    }
    assert(more.remove(ids.len() as int) =~= ids);
    assert(after.sessions.map() =~= before.sessions.map());
    assert forall|j: int| 0 <= j < before.devices@.len() implies same_but_lock(
        before.devices@[j],
        #[trigger] after.devices@[j],
    ) && after.devices@[j].lock@ == before.devices@[j].lock@ by {
        assert(lock_sound(before.devices@[j], before.sessions.map()));
        let mid = during.devices@[j];
        assert(same_but_lock(before.devices@[j], mid));
    }
}

/// Detaches a session of this connection. Releases any writer lock it held —
/// otherwise an exclusive lock would outlive the session with no way to
/// `unlock` it. Returns the device whose waiting sessions are to be woken.
pub fn detach(state: &mut DaemonState, conn: &mut ConnState, p: &DetachParams) -> (r: Result<
    Option<usize>,
    ProtocolError,
>)
    requires
        old(state).wf(),
        old(conn).wf(),
    ensures
        final(state).wf(),
        final(conn).wf(),
        match r {
            Ok(woken) => {
                &&& old(conn).owned().contains(p.session_id@)
                &&& without_session(*old(state), *final(state), p.session_id@)
                &&& final(conn).same_but_sessions(old(conn))
                &&& final(conn).owned() == without(old(conn).owned(), p.session_id@)
                &&& woken matches Some(i) ==> i < old(state).devices@.len()
                    && old(state).devices@[i as int].lock@ is Some
                    && final(state).devices@[i as int].lock@ is None
                &&& woken is None ==> forall|j: int|
                    0 <= j < old(state).devices@.len() ==> (#[trigger] final(
                        state).devices@[j]).lock@ == old(state).devices@[j].lock@
            },
            Err(e) => !old(conn).owned().contains(p.session_id@) && e.is_plain(
                ErrorCode::SessionNotAttached,
            ) && *final(state) == *old(state) && *final(conn) == *old(conn),
        },
{
    let sid = p.session_id.as_str();
    if !conn.has_session(sid) {
        return Err(ProtocolError::new(ErrorCode::SessionNotAttached));
    }
    let woken = state.release_lock_for_session(sid);
    let _ = state.sessions.remove(sid);
    conn.remove_session(sid);
    proof {
        assert forall|j: int| 0 <= j < state.devices@.len() implies lock_sound(
            #[trigger] state.devices@[j],
            state.sessions.map(),
        ) by {
            assert(lock_sound(old(state).devices@[j], old(state).sessions.map()));
        }
        assert forall|j: int| 0 <= j < old(state).devices@.len() implies same_but_lock(
            old(state).devices@[j],
            #[trigger] state.devices@[j],
        ) && state.devices@[j].lock@ == (if old(state).devices@[j].lock@ matches Some(h) && h.0
            == sid@ {
            None
        } else {
            old(state).devices@[j].lock@
        }) by {
            assert(lock_sound(old(state).devices@[j], old(state).sessions.map()));
        }
    }
    Ok(woken)
}

// ---------- Checks shared by the session methods ----------

/// The bytes a request asks to send, or why it asks for none: `data` counts
/// before `data_text`.
pub open spec fn bytes_to_send(data: Option<Seq<char>>, text: Option<Seq<char>>) -> Result<
    Seq<u8>,
    Seq<char>,
> {
    match (data, text) {
        (Some(b), _) => match base64_bytes(b) {
            Ok(bytes) => Ok(bytes),
            Err(why) => Err("base64: "@ + why),
        },
        (None, Some(t)) => Ok(vstd::utf8::encode_utf8(t)),
        (None, None) => Err("either data or data_text required"@),
    }
}

pub fn collect_send_bytes(data_b64: Option<&str>, data_text: Option<&str>) -> (r: Result<
    Vec<u8>,
    ProtocolError,
>)
    ensures
        match bytes_to_send(opt_str_view(data_b64), opt_str_view(data_text)) {
            Ok(bytes) => r matches Ok(b) && b@ == bytes,
            Err(why) => r matches Err(e) && e.says(ErrorCode::InvalidParams, why),
        },
{
    match (data_b64, data_text) {
        (Some(b), _) => b64_decode(b),
        (None, Some(t)) => Ok(vstd::slice::slice_to_vec(t.as_bytes())),
        (None, None) => Err(
            err_with(ErrorCode::InvalidParams, "either data or data_text required"),
        ),
    }
}

/// Why a session may not be used, if it may not: the connection does not own
/// it, it does not exist, or it may not write.
pub open spec fn session_problem(
    state: &DaemonState,
    conn: &ConnState,
    sid: Seq<char>,
    require_rw: bool,
) -> Option<ErrorCode> {
    if !conn.owned().contains(sid) {
        Some(ErrorCode::SessionNotAttached)
    } else if !state.sessions.map().contains_key(sid) {
        Some(ErrorCode::SessionNotFound)
    } else if require_rw && !(state.sessions.map()[sid].mode is Rw) {
        Some(ErrorCode::ModeViolation)
    } else {
        None
    }
}

pub fn check_session(
    state: &DaemonState,
    conn: &ConnState,
    session_id: &str,
    require_rw: bool,
) -> (r: Result<(), ProtocolError>)
    requires
        state.wf(),
        conn.wf(),
    ensures
        match session_problem(state, conn, session_id@, require_rw) {
            Some(code) => r matches Err(e) && e.is_plain(code),
            None => r is Ok,
        },
{
    if !conn.has_session(session_id) {
        return Err(ProtocolError::new(ErrorCode::SessionNotAttached));
    }
    match state.sessions.get(session_id) {
        Some(s) => {
            if require_rw && s.mode != SessionMode::Rw {
                return Err(ProtocolError::new(ErrorCode::ModeViolation));
            }
            Ok(())
        },
        None => Err(ProtocolError::new(ErrorCode::SessionNotFound)),
    }
}

/// Why a session's device cannot be reached.
pub open spec fn is_unreachable(
    state: &DaemonState,
    conn: &ConnState,
    sid: Seq<char>,
    require_rw: bool,
    e: ProtocolError,
) -> bool {
    match session_problem(state, conn, sid, require_rw) {
        Some(code) => e.is_plain(code),
        None => !has_device(state.devices@, state.session_device(sid)) && e.says(
            ErrorCode::DeviceNotFound,
            "session bound to missing device "@ + quoted_text(state.session_device(sid)),
        ),
    }
}

/// Device `i` is the one a usable session is bound to.
pub open spec fn is_reachable(
    state: &DaemonState,
    conn: &ConnState,
    sid: Seq<char>,
    require_rw: bool,
    i: int,
) -> bool {
    session_problem(state, conn, sid, require_rw) is None && is_device_at(
        state.devices@,
        state.session_device(sid),
        i,
    )
}

/// The device of a session that this connection may use.
pub fn session_target(
    state: &DaemonState,
    conn: &ConnState,
    session_id: &str,
    require_rw: bool,
) -> (r: Result<usize, ProtocolError>)
    requires
        state.wf(),
        conn.wf(),
    ensures
        match r {
            Ok(i) => is_reachable(state, conn, session_id@, require_rw, i as int),
            Err(e) => is_unreachable(state, conn, session_id@, require_rw, e),
        },
{
    match check_session(state, conn, session_id, require_rw) {
        Ok(()) => state.device_for_session(session_id),
        Err(e) => Err(e),
    }
}

// ---------- send ----------

/// What a `send` writes, and where.
#[derive(Debug)]
pub struct SendPlan {
    pub device: usize,
    pub bytes: Vec<u8>,
}

/// Checks that a session may write right now.
pub fn send_target(state: &DaemonState, conn: &ConnState, session_id: &str) -> (r: Result<
    usize,
    ProtocolError,
>)
    requires
        state.wf(),
        conn.wf(),
    ensures
        match r {
            Ok(i) => is_reachable(state, conn, session_id@, true, i as int) && !write_refused(
                state.devices@[i as int].lock@,
                session_id@,
            ),
            Err(e) => is_unreachable(state, conn, session_id@, true, e) || (exists|i: int|
                #![trigger state.devices@[i]]
                is_reachable(state, conn, session_id@, true, i) && write_refused(
                    state.devices@[i].lock@,
                    session_id@,
                ) && e.says(
                    ErrorCode::LockContention,
                    "device locked by another session (flashing?); try again after unlock"@,
                )),
        },
{
    match session_target(state, conn, session_id, true) {
        Ok(i) => match reject_if_exclusively_locked(&state.devices[i].lock, session_id) {
            Ok(()) => Ok(i),
            Err(e) => {
                assert(is_reachable(state, conn, session_id@, true, i as int));
                assert(write_refused(state.devices@[i as int].lock@, session_id@));
                Err(e)
            },
        },
        Err(e) => Err(e),
    }
}

/// Checks a `send` request.
pub fn send(state: &DaemonState, conn: &ConnState, p: &SendParams) -> (r: Result<
    SendPlan,
    ProtocolError,
>)
    requires
        state.wf(),
        conn.wf(),
    ensures
        match bytes_to_send(opt_view(p.data), opt_view(p.data_text)) {
            Err(why) => r matches Err(e) && e.says(ErrorCode::InvalidParams, why),
            Ok(bytes) => match r {
                Ok(plan) => plan.bytes@ == bytes && is_reachable(
                    state,
                    conn,
                    p.session_id@,
                    true,
                    plan.device as int,
                ) && !write_refused(state.devices@[plan.device as int].lock@, p.session_id@),
                Err(e) => is_unreachable(state, conn, p.session_id@, true, e) || (exists|i: int|
                    #![trigger state.devices@[i]]
                    is_reachable(state, conn, p.session_id@, true, i) && write_refused(
                        state.devices@[i].lock@,
                        p.session_id@,
                    ) && e.says(
                        ErrorCode::LockContention,
                        "device locked by another session (flashing?); try again after unlock"@,
                    )),
            },
        },
{
    let bytes = match collect_send_bytes(opt_as_str(&p.data), opt_as_str(&p.data_text)) {
        Ok(b) => b,
        Err(e) => {
            return Err(e);
        },
    };
    match send_target(state, conn, p.session_id.as_str()) {
        Ok(device) => Ok(SendPlan { device, bytes }),
        Err(e) => Err(e),
    }
}

/// The bytes of a `send` are on the wire: `count` of them, written when the
/// ring's head was `sent_at_seq`. With `eat_echo` the session skips their echo.
pub fn send_finished(
    state: &mut DaemonState,
    session_id: &str,
    eat_echo: bool,
    count: u64,
    sent_at_seq: u64,
) -> (r: SendResult)
    requires
        old(state).wf(),
        sent_at_seq + count <= u64::MAX,
    ensures
        final(state).wf(),
        r.bytes_written == count,
        r.sent_at_seq == sent_at_seq,
        final(state).devices == old(state).devices,
        final(state).default_device == old(state).default_device,
        final(state).auth_token == old(state).auth_token,
        final(state).sessions.map() == (if eat_echo && old(state).sessions.map().contains_key(
            session_id@,
        ) {
            old(state).sessions.map().insert(
                session_id@,
                (Session {
                    consumer_cursor: (sent_at_seq + count) as u64,
                    ..old(state).sessions.map()[session_id@]
                }),
            )
        } else {
            old(state).sessions.map()
        }),
{
    if eat_echo && state.sessions.get(session_id).is_some() {
        move_consumer_cursor(state, session_id, sent_at_seq + count);
    }
    SendResult { bytes_written: count, sent_at_seq }
}

/// Moves the cursor that a session's next `expect` reads from.
fn move_consumer_cursor(state: &mut DaemonState, session_id: &str, seq: u64)
    requires
        old(state).wf(),
        old(state).sessions.map().contains_key(session_id@),
    ensures
        final(state).wf(),
        final(state).devices == old(state).devices,
        final(state).default_device == old(state).default_device,
        final(state).auth_token == old(state).auth_token,
        final(state).sessions.map() == old(state).sessions.map().insert(
            session_id@,
            (Session { consumer_cursor: seq, ..old(state).sessions.map()[session_id@] }),
        ),
{
    state.sessions.set_consumer_cursor(session_id, seq);
    assert forall|j: int| 0 <= j < state.devices@.len() implies lock_sound(
        #[trigger] state.devices@[j],
        state.sessions.map(),
    ) by {
        assert(lock_sound(old(state).devices@[j], old(state).sessions.map()));
    }
}

// ---------- expect ----------

/// How much an `expect` or `run` may take without a match, unless it says.
pub const DEFAULT_MAX_BYTES: u64 = 1048576;

pub open spec fn opt_bytes(v: Option<Vec<u8>>) -> Option<Seq<u8>> {
    match v {
        Some(b) => Some(b@),
        None => None,
    }
}

/// `req` waits for what the parameters say, from their `from_seq` on or else
/// from the session's cursor.
pub open spec fn is_expect_request(req: ExpectRequest, p: ExpectParams, cursor: u64) -> bool {
    &&& req.from_seq == (match p.from_seq {
        Some(s) => s,
        None => cursor,
    })
    &&& req.pattern@ == p.pattern@
    &&& req.regex == p.regex
    &&& req.strip_ansi == p.strip_ansi
    &&& opt_bytes(req.strip_echo) == (match p.strip_echo {
        Some(t) => Some(vstd::utf8::encode_utf8(t@)),
        None => None,
    })
    &&& req.timeout_ms == p.timeout_ms
    &&& req.max_bytes == (match p.max_bytes {
        Some(n) => n,
        None => DEFAULT_MAX_BYTES,
    })
    &&& req.max_output_bytes == p.max_output_bytes
}

/// The request that `expect` parameters make for a session at `cursor`.
pub fn expect_request(p: &ExpectParams, cursor: u64) -> (req: ExpectRequest)
    ensures
        is_expect_request(req, *p, cursor),
{
    ExpectRequest {
        from_seq: match p.from_seq {
            Some(s) => s,
            None => cursor,
        },
        pattern: p.pattern.clone(),
        regex: p.regex,
        strip_ansi: p.strip_ansi,
        strip_echo: match &p.strip_echo {
            Some(t) => Some(vstd::slice::slice_to_vec(t.as_str().as_bytes())),
            None => None,
        },
        timeout_ms: p.timeout_ms,
        max_bytes: match p.max_bytes {
            Some(n) => n,
            None => DEFAULT_MAX_BYTES,
        },
        max_output_bytes: p.max_output_bytes,
    }
}

/// A wait that starts from nothing.
pub open spec fn is_fresh(watch: ExpectState) -> bool {
    &&& watch.wf()
    &&& watch.bytes() == Seq::<u8>::empty()
    &&& watch.next_seq() == watch.req().from_seq
}

/// A refused pattern.
pub open spec fn is_pattern_error(pattern: Seq<char>, regex: bool, e: ProtocolError) -> bool {
    &&& regex && regex_error(pattern) is Some
    &&& e.says(ErrorCode::InvalidParams, "regex: "@ + regex_error(pattern).unwrap())
}

/// Starts an `expect` on the session's device. Reading needs no write access.
pub fn expect(state: &DaemonState, conn: &ConnState, p: &ExpectParams) -> (r: Result<
    (usize, ExpectState),
    ProtocolError,
>)
    requires
        state.wf(),
        conn.wf(),
    ensures
        match r {
            Ok((i, watch)) => {
                &&& is_reachable(state, conn, p.session_id@, false, i as int)
                &&& is_fresh(watch)
                &&& is_expect_request(
                    watch.req(),
                    *p,
                    state.sessions.map()[p.session_id@].consumer_cursor,
                )
                &&& p.regex ==> regex_error(p.pattern@) is None
            },
            Err(e) => if exists|i: int| is_reachable(state, conn, p.session_id@, false, i) {
                is_pattern_error(p.pattern@, p.regex, e)
            } else {
                is_unreachable(state, conn, p.session_id@, false, e)
            },
        },
{
    let sid = p.session_id.as_str();
    let device: usize = match session_target(state, conn, sid, false) {
        Ok(i) => i,
        Err(e) => {
            return Err(e);
        },
    };
    let cursor: u64 = match state.sessions.get(sid) {
        Some(s) => s.consumer_cursor,
        None => 0,
    };
    assert(is_reachable(state, conn, p.session_id@, false, device as int));
    match ExpectState::new(expect_request(p, cursor)) {
        Ok(watch) => Ok((device, watch)),
        Err(e) => Err(e),
    }
}

/// Where an answer leaves the session's cursor: past a match, at the end of
/// what a timed-out wait had taken, and else where it was.
pub open spec fn cursor_after(step: ExpectStep, next_seq: u64) -> Option<u64> {
    match step {
        ExpectStep::Matched(m) => Some(m.end_seq),
        ExpectStep::Failed(e) => if e.code == ErrorCode::Timeout.number() {
            Some(next_seq)
        } else {
            None
        },
        ExpectStep::Wait(_) => None,
    }
}

/// The sessions after one of them had its cursor moved, if at all.
pub open spec fn with_cursor(
    sessions: Map<Seq<char>, Session>,
    sid: Seq<char>,
    cursor: Option<u64>,
) -> Map<Seq<char>, Session> {
    match cursor {
        Some(c) => if sessions.contains_key(sid) {
            sessions.insert(sid, (Session { consumer_cursor: c, ..sessions[sid] }))
        } else {
            sessions
        },
        None => sessions,
    }
}

/// An `expect` was answered; `next_seq` is where its reading had come to.
pub fn expect_finished(state: &mut DaemonState, session_id: &str, step: &ExpectStep, next_seq: u64)
    requires
        old(state).wf(),
    ensures
        final(state).wf(),
        final(state).devices == old(state).devices,
        final(state).default_device == old(state).default_device,
        final(state).auth_token == old(state).auth_token,
        final(state).sessions.map() == with_cursor(
            old(state).sessions.map(),
            session_id@,
            cursor_after(*step, next_seq),
        ),
{
    let cursor = match step {
        ExpectStep::Matched(m) => Some(m.end_seq),
        ExpectStep::Failed(e) => {
            if e.code == ErrorCode::Timeout.as_i32() {
                Some(next_seq)
            } else {
                None
            }
        },
        ExpectStep::Wait(_) => None,
    };
    if let Some(c) = cursor {
        if state.sessions.get(session_id).is_some() {
            move_consumer_cursor(state, session_id, c);
        }
    }
}

// ---------- Taking and giving back the writer lock ----------

/// Device `i`'s lock was asked for; nothing else changed.
pub open spec fn lock_requested(
    before: DaemonState,
    after: DaemonState,
    i: int,
    sid: Seq<char>,
    preempt: Seq<char>,
    exclusive: bool,
) -> bool {
    &&& after.sessions == before.sessions
    &&& after.default_device == before.default_device
    &&& after.auth_token == before.auth_token
    &&& only_device_changed(before.devices@, after.devices@, i)
    &&& same_but_lock(before.devices@[i], after.devices@[i])
    &&& after.devices@[i].lock@ == after_acquire(before.devices@[i].lock@, sid, preempt, exclusive)
}

/// Asks for a device's lock. Where it is granted by taking it over, says from
/// whom.
fn acquire_on(
    state: &mut DaemonState,
    device: usize,
    session_id: &str,
    preempt: &str,
    exclusive: bool,
) -> (r: Result<(LockAttempt, Option<String>), ProtocolError>)
    requires
        old(state).wf(),
        old(state).sessions.map().contains_key(session_id@),
        is_device_at(
            old(state).devices@,
            old(state).session_device(session_id@),
            device as int,
        ),
    ensures
        final(state).wf(),
        lock_requested(
            *old(state),
            *final(state),
            device as int,
            session_id@,
            preempt@,
            exclusive,
        ),
        ({
            let held = old(state).devices@[device as int].lock@;
            match r {
                Ok((LockAttempt::Granted, from)) => (!held_by_other(held, session_id@) || preempt@
                    == "force"@) && opt_view(from) == seized_from(held, session_id@, preempt@),
                Ok((LockAttempt::Wait, _)) => held_by_other(held, session_id@) && preempt@
                    != "fail"@ && preempt@ != "force"@,
                Err(e) => held_by_other(held, session_id@) && preempt@ == "fail"@ && e.is_plain(
                    ErrorCode::LockContention,
                ),
            }
        }),
{
    let ghost before = *state;
    let ours: bool = state.devices[device].lock.is_held_by(session_id);
    let other = if ours {
        None
    } else {
        state.devices[device].lock.holder_id()
    };
    let r = acquire_lock(&mut state.devices[device].lock, session_id, preempt, exclusive);
    proof {
        keep_wf_on_lock_change(before, *state, device as int);
    }
    match r {
        Ok(attempt) => Ok((attempt, other)),
        Err(e) => Err(e),
    }
}

/// Changing one lock to another sound value keeps the daemon well-formed.
proof fn keep_wf_on_lock_change(before: DaemonState, after: DaemonState, i: int)
    requires
        before.wf(),
        0 <= i < before.devices@.len(),
        after.sessions == before.sessions,
        after.default_device == before.default_device,
        only_device_changed(before.devices@, after.devices@, i),
        same_but_lock(before.devices@[i], after.devices@[i]),
        lock_sound(after.devices@[i], after.sessions.map()),
    ensures
        after.wf(),
{
    let d = choose|d: int| is_device_at(before.devices@, before.default_device@, d);
    assert(is_device_at(after.devices@, after.default_device@, d));
    assert forall|a: int, b: int| 0 <= a < b < after.devices@.len() implies (
    #[trigger] after.devices@[a]).id@ != (#[trigger] after.devices@[b]).id@ by {
        assert(before.devices@[a].id@ != before.devices@[b].id@);
    }
    assert forall|j: int| 0 <= j < after.devices@.len() implies (
    #[trigger] after.devices@[j]).wf() by {
        assert(before.devices@[j].wf());
    }
    assert forall|j: int| 0 <= j < after.devices@.len() implies lock_sound(
        #[trigger] after.devices@[j],
        after.sessions.map(),
    ) by {
        assert(lock_sound(before.devices@[j], before.sessions.map()));
    }
}

// ---------- run ----------

/// A `run` that may go ahead: the bytes to write to the device, and the session
/// whose transactions end because the lock was taken over from it.
#[derive(Debug)]
pub struct RunPlan {
    pub device: usize,
    pub bytes: Vec<u8>,
    pub seized_from: Option<String>,
}

/// How far a `run` got.
#[derive(Debug)]
pub enum RunStart {
    /// The lock is held.
    Granted(RunPlan),
    /// Another session holds the device's lock: ask again at its release.
    Wait(usize),
}

/// Starts a `run`: takes the device's writer lock for the transaction. The
/// hold is transient, and does not gate other sessions' plain writes.
pub fn run(state: &mut DaemonState, conn: &ConnState, p: &RunParams) -> (r: Result<
    RunStart,
    ProtocolError,
>)
    requires
        old(state).wf(),
        conn.wf(),
    ensures
        final(state).wf(),
        match r {
            Ok(RunStart::Granted(plan)) => {
                &&& bytes_to_send(opt_view(p.data), opt_view(p.data_text)) matches Ok(bytes)
                    && plan.bytes@ == bytes
                &&& is_reachable(old(state), conn, p.session_id@, true, plan.device as int)
                &&& lock_requested(
                    *old(state),
                    *final(state),
                    plan.device as int,
                    p.session_id@,
                    p.preempt@,
                    false,
                )
                &&& final(state).devices@[plan.device as int].lock@ matches Some(h) && h.0
                    == p.session_id@
                &&& opt_view(plan.seized_from) == seized_from(
                    old(state).devices@[plan.device as int].lock@,
                    p.session_id@,
                    p.preempt@,
                )
            },
            Ok(RunStart::Wait(i)) => {
                &&& bytes_to_send(opt_view(p.data), opt_view(p.data_text)) is Ok
                &&& is_reachable(old(state), conn, p.session_id@, true, i as int)
                &&& held_by_other(old(state).devices@[i as int].lock@, p.session_id@)
                &&& p.preempt@ != "fail"@ && p.preempt@ != "force"@
                &&& lock_requested(
                    *old(state),
                    *final(state),
                    i as int,
                    p.session_id@,
                    p.preempt@,
                    false,
                )
            },
            Err(e) => match bytes_to_send(opt_view(p.data), opt_view(p.data_text)) {
                Err(why) => e.says(ErrorCode::InvalidParams, why) && *final(state) == *old(state),
                Ok(_) => is_unreachable(old(state), conn, p.session_id@, true, e) && *final(state)
                    == *old(state) || is_contention(
                    *old(state),
                    *final(state),
                    conn,
                    p.session_id@,
                    p.preempt@,
                    e,
                ),
            },
        },
{
    let bytes = match collect_send_bytes(opt_as_str(&p.data), opt_as_str(&p.data_text)) {
        Ok(b) => b,
        Err(e) => {
            return Err(e);
        },
    };
    let sid = p.session_id.as_str();
    let device: usize = match session_target(state, conn, sid, true) {
        Ok(i) => i,
        Err(e) => {
            return Err(e);
        },
    };
    match acquire_on(state, device, sid, p.preempt.as_str(), false) {
        Ok((LockAttempt::Granted, seized_from)) => Ok(
            RunStart::Granted(RunPlan { device, bytes, seized_from }),
        ),
        Ok((LockAttempt::Wait, _)) => Ok(RunStart::Wait(device)),
        Err(e) => {
            assert(contends_on(*old(state), *state, conn, sid@, p.preempt@, device as int));
            Err(e)
        },
    }
}

/// Session `sid` asked, with `fail`, for device `i`'s lock while another
/// session held it; nothing changed.
pub open spec fn contends_on(
    before: DaemonState,
    after: DaemonState,
    conn: &ConnState,
    sid: Seq<char>,
    preempt: Seq<char>,
    i: int,
) -> bool {
    &&& is_reachable(&before, conn, sid, true, i)
    &&& held_by_other(before.devices@[i].lock@, sid)
    &&& preempt == "fail"@
    &&& lock_requested(before, after, i, sid, preempt, false) || lock_requested(
        before,
        after,
        i,
        sid,
        preempt,
        true,
    )
}

/// A request for the lock was refused because another session holds it.
pub open spec fn is_contention(
    before: DaemonState,
    after: DaemonState,
    conn: &ConnState,
    sid: Seq<char>,
    preempt: Seq<char>,
    e: ProtocolError,
) -> bool {
    &&& e.is_plain(ErrorCode::LockContention)
    &&& exists|i: int| #[trigger] contends_on(before, after, conn, sid, preempt, i)
}

/// `req` waits for what a `run` says, from where its bytes were written on.
pub open spec fn is_run_request(
    req: ExpectRequest,
    p: RunParams,
    sent: Seq<u8>,
    sent_at_seq: u64,
) -> bool {
    &&& req.from_seq == sent_at_seq
    &&& req.pattern@ == p.until.pattern@
    &&& req.regex == p.until.regex
    &&& req.strip_ansi == p.until.strip_ansi
    &&& opt_bytes(req.strip_echo) == (if p.strip_echo {
        Some(sent)
    } else {
        None
    })
    &&& req.timeout_ms == p.timeout_ms
    &&& req.max_bytes == (match p.max_bytes {
        Some(n) => n,
        None => DEFAULT_MAX_BYTES,
    })
    &&& req.max_output_bytes == p.max_output_bytes
}

/// The bytes of a `run` are on the wire: starts to wait for its prompt.
pub fn run_watch(p: &RunParams, sent: &[u8], sent_at_seq: u64) -> (r: Result<
    ExpectState,
    ProtocolError,
>)
    ensures
        match r {
            Ok(watch) => {
                &&& is_fresh(watch)
                &&& is_run_request(watch.req(), *p, sent@, sent_at_seq)
                &&& p.until.regex ==> regex_error(p.until.pattern@) is None
            },
            Err(e) => is_pattern_error(p.until.pattern@, p.until.regex, e),
        },
{
    let req = ExpectRequest {
        from_seq: sent_at_seq,
        pattern: p.until.pattern.clone(),
        regex: p.until.regex,
        strip_ansi: p.until.strip_ansi,
        strip_echo: if p.strip_echo {
            Some(vstd::slice::slice_to_vec(sent))
        } else {
            None
        },
        timeout_ms: p.timeout_ms,
        max_bytes: match p.max_bytes {
            Some(n) => n,
            None => DEFAULT_MAX_BYTES,
        },
        max_output_bytes: p.max_output_bytes,
    };
    ExpectState::new(req)
}

/// What interrupts a `run`: the device is gone, or its session is among those
/// from which the lock was taken over since the `run` started. A lock that the
/// session gave back itself, by another of its transactions too, interrupts
/// nothing.
pub fn run_interrupt(session_id: &str, seized: &Vec<String>, dropped: bool) -> (i: Interrupt)
    ensures
        i == (if dropped {
            Interrupt::DeviceDropped
        } else if views(seized@).contains(session_id@) {
            Interrupt::LockSeized
        } else {
            Interrupt::Nothing
        }),
{
    if dropped {
        return Interrupt::DeviceDropped;
    }
    let mut k: usize = 0;
    while k < seized.len()
        invariant
            !dropped,
            k <= seized@.len(),
            forall|j: int| 0 <= j < k ==> #[trigger] views(seized@)[j] != session_id@,
        decreases seized@.len() - k,
    {
        assert(views(seized@)[k as int] == seized@[k as int]@);
        if str_eq(seized[k].as_str(), session_id) {
            return Interrupt::LockSeized;
        }
        k = k + 1;
    }
    Interrupt::Nothing
}

/// A `run` on device `device` is over, with a match that ended at `end_seq` or
/// without one. Gives the transient hold back, unless an explicit `lock` made
/// it exclusive meanwhile. Returns whether waiting sessions are to be woken.
pub fn run_finished(
    state: &mut DaemonState,
    device: usize,
    session_id: &str,
    end_seq: Option<u64>,
) -> (wake: bool)
    requires
        old(state).wf(),
        device < old(state).devices@.len(),
    ensures
        final(state).wf(),
        final(state).default_device == old(state).default_device,
        final(state).auth_token == old(state).auth_token,
        final(state).sessions.map() == with_cursor(
            old(state).sessions.map(),
            session_id@,
            end_seq,
        ),
        only_device_changed(old(state).devices@, final(state).devices@, device as int),
        same_but_lock(
            old(state).devices@[device as int],
            final(state).devices@[device as int],
        ),
        final(state).devices@[device as int].lock@ == after_transient_release(
            old(state).devices@[device as int].lock@,
            session_id@,
        ),
        wake == (old(state).devices@[device as int].lock@ == Some((session_id@, false))),
{
    if let Some(c) = end_seq {
        if state.sessions.get(session_id).is_some() {
            move_consumer_cursor(state, session_id, c);
        }
    }
    let ghost before = *state;
    let wake: bool = release_transient_hold(&mut state.devices[device].lock, session_id);
    proof {
        assert(lock_sound(before.devices@[device as int], before.sessions.map()));
        keep_wf_on_lock_change(before, *state, device as int);
    }
    wake
}

// ---------- lock / unlock ----------

/// `session bound to device "<a>", not "<b>"`, both given in quotes.
pub fn wrong_device(quoted_bound: &str, quoted_asked: &str) -> (e: ProtocolError)
    ensures
        e.says(
            ErrorCode::DeviceNotFound,
            "session bound to device "@ + quoted_bound@ + ", not "@ + quoted_asked@,
        ),
{
    let msg = cat4("session bound to device ", quoted_bound, ", not ", quoted_asked);
    err_with(ErrorCode::DeviceNotFound, msg.as_str())
}

/// The device named is another than the session's.
pub open spec fn asks_for_another(
    state: &DaemonState,
    sid: Seq<char>,
    device_id: Option<Seq<char>>,
) -> bool {
    device_id matches Some(id) && id != state.session_device(sid)
}

/// Why a `lock` or `unlock` has no device to work on.
pub open spec fn is_lock_target_error(
    state: &DaemonState,
    conn: &ConnState,
    sid: Seq<char>,
    device_id: Option<Seq<char>>,
    e: ProtocolError,
) -> bool {
    if session_problem(state, conn, sid, true) is None && has_device(
        state.devices@,
        state.session_device(sid),
    ) {
        &&& asks_for_another(state, sid, device_id)
        &&& e.says(
            ErrorCode::DeviceNotFound,
            "session bound to device "@ + quoted_text(state.session_device(sid)) + ", not "@
                + quoted_text(device_id.unwrap()),
        )
    } else {
        is_unreachable(state, conn, sid, true, e)
    }
}

/// Resolves the device a `lock`/`unlock` call targets. The lock is keyed by
/// session, so the device always comes from the session's binding; an explicit
/// `device_id` is accepted only as a consistency check against that binding.
pub fn resolve_locked_device(
    state: &DaemonState,
    conn: &ConnState,
    session_id: &str,
    device_id: Option<&str>,
) -> (r: Result<usize, ProtocolError>)
    requires
        state.wf(),
        conn.wf(),
    ensures
        match r {
            Ok(i) => is_reachable(state, conn, session_id@, true, i as int) && !asks_for_another(
                state,
                session_id@,
                opt_str_view(device_id),
            ),
            Err(e) => is_lock_target_error(
                state,
                conn,
                session_id@,
                opt_str_view(device_id),
                e,
            ),
        },
{
    let device: usize = match session_target(state, conn, session_id, true) {
        Ok(i) => i,
        Err(e) => {
            return Err(e);
        },
    };
    if let Some(id) = device_id {
        let bound = state.devices[device].id.as_str();
        if !str_eq(id, bound) {
            return Err(wrong_device(quoted(bound).as_str(), quoted(id).as_str()));
        }
    }
    Ok(device)
}

/// How far a `lock` got.
#[derive(Debug, PartialEq, Eq)]
pub enum LockStart {
    /// The lock is held; it may have been taken over from a session, whose
    /// transactions end.
    Granted(Option<String>),
    /// Another session holds the device's lock: ask again at its release.
    Wait(usize),
}

/// Takes exclusive, session-held possession of the device's writer lock. It
/// persists until `unlock`, session detach, or connection teardown, and blocks
/// plain `send` from other sessions. Meant for a session that's about to flash
/// the device out-of-band and needs the wire to itself.
pub fn lock(state: &mut DaemonState, conn: &ConnState, p: &LockParams) -> (r: Result<
    LockStart,
    ProtocolError,
>)
    requires
        old(state).wf(),
        conn.wf(),
    ensures
        final(state).wf(),
        match r {
            Ok(start) => exists|i: int|
                {
                    &&& #[trigger] is_reachable(old(state), conn, p.session_id@, true, i)
                    &&& !asks_for_another(old(state), p.session_id@, opt_view(p.device_id))
                    &&& lock_requested(
                        *old(state),
                        *final(state),
                        i,
                        p.session_id@,
                        p.preempt@,
                        true,
                    )
                    &&& match start {
                        LockStart::Granted(from) => final(state).devices@[i].lock@ == Some(
                            (p.session_id@, true),
                        ) && opt_view(from) == seized_from(
                            old(state).devices@[i].lock@,
                            p.session_id@,
                            p.preempt@,
                        ),
                        LockStart::Wait(w) => w == i && held_by_other(
                            old(state).devices@[i].lock@,
                            p.session_id@,
                        ) && p.preempt@ != "fail"@ && p.preempt@ != "force"@,
                    }
                },
            Err(e) => is_lock_target_error(
                old(state),
                conn,
                p.session_id@,
                opt_view(p.device_id),
                e,
            ) && *final(state) == *old(state) || (is_contention(
                *old(state),
                *final(state),
                conn,
                p.session_id@,
                p.preempt@,
                e,
            ) && !asks_for_another(old(state), p.session_id@, opt_view(p.device_id))),
        },
{
    let sid = p.session_id.as_str();
    let device: usize = match resolve_locked_device(state, conn, sid, opt_as_str(&p.device_id)) {
        Ok(i) => i,
        Err(e) => {
            return Err(e);
        },
    };
    assert(is_reachable(old(state), conn, p.session_id@, true, device as int));
    match acquire_on(state, device, sid, p.preempt.as_str(), true) {
        Ok((LockAttempt::Granted, seized_from)) => Ok(LockStart::Granted(seized_from)),
        Ok((LockAttempt::Wait, _)) => Ok(LockStart::Wait(device)),
        Err(e) => {
            assert(contends_on(*old(state), *state, conn, sid@, p.preempt@, device as int));
            Err(e)
        },
    }
}

/// Releases an exclusive lock this session holds. Idempotent — releasing an
/// already-free lock succeeds; releasing a lock held by *another* session
/// fails with `LockContention` rather than silently stealing it. Returns the
/// device whose waiting sessions are to be woken.
pub fn unlock(state: &mut DaemonState, conn: &ConnState, p: &UnlockParams) -> (r: Result<
    Option<usize>,
    ProtocolError,
>)
    requires
        old(state).wf(),
        conn.wf(),
    ensures
        final(state).wf(),
        final(state).sessions == old(state).sessions,
        final(state).default_device == old(state).default_device,
        final(state).auth_token == old(state).auth_token,
        match r {
            Ok(woken) => exists|i: int|
                {
                    &&& #[trigger] is_reachable(old(state), conn, p.session_id@, true, i)
                    &&& !asks_for_another(old(state), p.session_id@, opt_view(p.device_id))
                    &&& !held_by_other(old(state).devices@[i].lock@, p.session_id@)
                    &&& only_device_changed(old(state).devices@, final(state).devices@, i)
                    &&& same_but_lock(old(state).devices@[i], final(state).devices@[i])
                    &&& final(state).devices@[i].lock@ is None
                    &&& woken == (if old(state).devices@[i].lock@ is Some {
                        Some(i as usize)
                    } else {
                        None
                    })
                },
            Err(e) => {
                &&& forall|j: int|
                    0 <= j < old(state).devices@.len() ==> (#[trigger] final(
                        state).devices@[j]).lock@ == old(state).devices@[j].lock@ && same_but_lock(
                        old(state).devices@[j],
                        final(state).devices@[j],
                    )
                &&& final(state).devices@.len() == old(state).devices@.len()
                &&& is_lock_target_error(
                    old(state),
                    conn,
                    p.session_id@,
                    opt_view(p.device_id),
                    e,
                ) || (e.says(ErrorCode::LockContention, "not the lock holder"@)
                    && !asks_for_another(old(state), p.session_id@, opt_view(p.device_id))
                    && exists|i: int|
                    #[trigger] is_reachable(old(state), conn, p.session_id@, true, i)
                        && held_by_other(old(state).devices@[i].lock@, p.session_id@))
            },
        },
{
    let sid = p.session_id.as_str();
    let device: usize = match resolve_locked_device(state, conn, sid, opt_as_str(&p.device_id)) {
        Ok(i) => i,
        Err(e) => {
            return Err(e);
        },
    };
    let ghost before = *state;
    assert(is_reachable(&before, conn, p.session_id@, true, device as int));
    let r = release_lock_if_holder(&mut state.devices[device].lock, sid);
    proof {
        assert(lock_sound(before.devices@[device as int], before.sessions.map()));
        keep_wf_on_lock_change(before, *state, device as int);
    }
    match r {
        Ok(wake) => Ok(
            if wake {
                Some(device)
            } else {
                None
            },
        ),
        Err(e) => Err(e),
    }
}

} // verus!
