//! Devices and the daemon's shared state.

use vstd::prelude::*;
use vstd::string::*;

use crate::buffer::RingBuffer;
use crate::error::{err_with, ErrorCode, ProtocolError};
use crate::lock::{after_release, release_lock_if_holder, WriterLock};
use crate::serial::{SerialConfig, SerialOwner, INITIAL_BACKOFF_MS};
use crate::session::{Session, SessionManager};
use crate::text::{cat3, clone_opt, dec_u64, decimal, quoted, quoted_text, str_eq};

verus! {

/// Liveness state of an underlying serial device. The serial task is the
/// sole writer; other code reads it (for the `status` RPC, the banner, etc.).
#[derive(Debug, Clone)]
pub struct DeviceState {
    /// True when the daemon currently holds the device open.
    pub connected: bool,
    /// Last successful open, in milliseconds on the daemon's monotonic clock.
    /// None until the first open.
    pub last_open_at: Option<u64>,
    /// Last disconnect/EOF/error reason. None while connected.
    pub last_disconnect_reason: Option<String>,
    /// Cumulative count of disconnects since daemon start (for diagnostics).
    pub disconnect_count: u64,
    /// Consecutive open failures during the current outage. Resets on success.
    pub consecutive_open_failures: u64,
    /// Set by `disconnect_device`; the serial owner task closes the port
    /// and stops auto-reconnecting until `connect_device` clears it.
    pub explicitly_disconnected: bool,
}

impl DeviceState {
    /// The state of a port that was never opened.
    pub open spec fn fresh() -> DeviceState {
        DeviceState {
            connected: false,
            last_open_at: None,
            last_disconnect_reason: None,
            disconnect_count: 0,
            consecutive_open_failures: 0,
            explicitly_disconnected: false,
        }
    }

    pub fn new_disconnected() -> (s: Self)
        ensures
            s == Self::fresh(),
    {
        DeviceState {
            connected: false,
            last_open_at: None,
            last_disconnect_reason: None,
            disconnect_count: 0,
            consecutive_open_failures: 0,
            explicitly_disconnected: false,
        }
    }
}

/// Device-state transition broadcast across all connections, surfaced to
/// clients as the `device` notification.
#[derive(Debug, Clone)]
pub struct DeviceEvent {
    pub kind: DeviceEventKind,
    pub detail: Option<String>,
}

#[derive(Debug, Clone, Copy, PartialEq, Eq, Structural)]
pub enum DeviceEventKind {
    Disconnected,
    Reconnected,
    /// Live serial settings changed (set_device). The device wasn't dropped;
    /// `detail` carries a short summary of the new configuration for the UI.
    ConfigChanged,
}

impl DeviceEventKind {
    pub open spec fn name(self) -> Seq<char> {
        match self {
            DeviceEventKind::Disconnected => "disconnected"@,
            DeviceEventKind::Reconnected => "reconnected"@,
            DeviceEventKind::ConfigChanged => "config_changed"@,
        }
    }

    pub fn as_str(self) -> (s: &'static str)
        ensures
            s@ == self.name(),
    {
        match self {
            DeviceEventKind::Disconnected => "disconnected",
            DeviceEventKind::Reconnected => "reconnected",
            DeviceEventKind::ConfigChanged => "config_changed",
        }
    }
}

/// Static per-device console personality, set once from the `-D` spec and
/// surfaced in `status` / `list_devices`. Drives client-side behaviour: how
/// `exec` frames commands and picks a line terminator, and the default `-u`
/// prompt for `run` / `sync`.
#[derive(Debug, Clone)]
pub struct ConsolePersonality {
    /// `"posix"` | `"uboot"` | `"none"`. Validated at `-D` parse time.
    pub shell: String,
    /// Default `-u` prompt regex for `run` / `sync`; `None` if unset.
    pub prompt: Option<String>,
    /// Default line terminator (`"lf"` | `"cr"` | `"crlf"` | `"none"`); `None`
    /// if unset. `uboot` defaults this to `"cr"` unless overridden.
    pub newline: Option<String>,
}

impl ConsolePersonality {
    pub fn duplicate(&self) -> (c: Self)
        ensures
            c == *self,
    {
        ConsolePersonality {
            shell: self.shell.clone(),
            prompt: clone_opt(&self.prompt),
            newline: clone_opt(&self.newline),
        }
    }
}

impl Default for ConsolePersonality {
    fn default() -> (c: Self)
        ensures
            c.shell@ == "posix"@,
            c.prompt is None,
            c.newline is None,
    {
        ConsolePersonality { shell: "posix".to_owned(), prompt: None, newline: None }
    }
}

/// One serial port owned by the daemon, with all per-device state.
pub struct Device {
    /// Operator-chosen alias (e.g. "board0"). Used in CLI flags, log lines,
    /// and to route requests.
    pub id: String,
    pub buffer: RingBuffer,
    /// The serial owner task is the authoritative writer; handlers read it.
    pub config: SerialConfig,
    pub state: DeviceState,
    pub owner: SerialOwner,
    pub lock: WriterLock,
    /// Console personality (shell/prompt/newline) from the `-D` spec. Static.
    pub console: ConsolePersonality,
}

impl Device {
    pub open spec fn wf(&self) -> bool {
        self.buffer.wf() && self.owner.wf(self.state)
    }

    /// A device that has not been opened yet.
    pub fn new(
        id: String,
        buffer_capacity: usize,
        config: SerialConfig,
        console: ConsolePersonality,
    ) -> (d: Self)
        ensures
            d.wf(),
            d.id == id,
            d.config == config,
            d.console == console,
            d.buffer.stream() == Seq::<u8>::empty(),
            d.buffer.limit() == buffer_capacity,
            d.lock@ is None,
            d.state == DeviceState::fresh(),
            d.owner.phase is Opening,
            d.owner.backoff_ms == INITIAL_BACKOFF_MS,
    {
        Device {
            id,
            buffer: RingBuffer::new(buffer_capacity),
            config,
            state: DeviceState::new_disconnected(),
            owner: SerialOwner::new(),
            lock: WriterLock::new(),
            console,
        }
    }
}

/// Everything the daemon's connections share.
pub struct DaemonState {
    /// All devices the daemon owns, in the order they were given. Their
    /// number is fixed at startup.
    pub devices: Vec<Device>,
    /// Device id picked when a client omits `device_id`. With multiple
    /// devices the handler returns `AmbiguousDevice` instead of silently
    /// using this; `default_device` only resolves when there is one device.
    pub default_device: String,
    pub sessions: SessionManager,
    /// Required by clients connecting over a transport that requires
    /// authentication (TCP). `None` means TCP listening is disabled.
    pub auth_token: Option<String>,
}

/// Device `i` has this id.
pub open spec fn is_device_at(devices: Seq<Device>, id: Seq<char>, i: int) -> bool {
    0 <= i < devices.len() && devices[i].id@ == id
}

/// Some device has this id.
pub open spec fn has_device(devices: Seq<Device>, id: Seq<char>) -> bool {
    exists|i: int| is_device_at(devices, id, i)
}

/// Only device `i` differs between two lists, and not in its id.
pub open spec fn only_device_changed(before: Seq<Device>, after: Seq<Device>, i: int) -> bool {
    &&& before.len() == after.len()
    &&& forall|j: int| 0 <= j < before.len() && j != i ==> #[trigger] after[j] == before[j]
}

/// `d` is the device `before` with another lock state.
pub open spec fn same_but_lock(before: Device, after: Device) -> bool {
    after == Device { lock: after.lock, ..before }
}

/// A lock is only ever held by an existing session that is bound to the device.
pub open spec fn lock_sound(device: Device, sessions: Map<Seq<char>, Session>) -> bool {
    device.lock@ matches Some(h) ==> sessions.contains_key(h.0) && sessions[h.0].device_id@
        == device.id@
}

/// `device "<id>" not managed by this daemon`, the id given in quotes.
pub fn device_not_managed(quoted_id: &str) -> (e: ProtocolError)
    ensures
        e.says(
            ErrorCode::DeviceNotFound,
            "device "@ + quoted_id@ + " not managed by this daemon"@,
        ),
{
    let msg = cat3("device ", quoted_id, " not managed by this daemon");
    err_with(ErrorCode::DeviceNotFound, msg.as_str())
}

/// `session bound to missing device "<id>"`, the id given in quotes.
pub fn session_device_missing(quoted_id: &str) -> (e: ProtocolError)
    ensures
        e.says(ErrorCode::DeviceNotFound, "session bound to missing device "@ + quoted_id@),
{
    let msg = crate::text::cat2("session bound to missing device ", quoted_id);
    err_with(ErrorCode::DeviceNotFound, msg.as_str())
}

impl DaemonState {
    /// Device ids are distinct, the default device is one of them, every part
    /// is well-formed, and no writer lock outlives its session.
    pub open spec fn wf(&self) -> bool {
        &&& forall|i: int, j: int|
            0 <= i < j < self.devices@.len() ==> (#[trigger] self.devices@[i]).id@ != (
            #[trigger] self.devices@[j]).id@
        &&& forall|i: int| 0 <= i < self.devices@.len() ==> (#[trigger] self.devices@[i]).wf()
        &&& has_device(self.devices@, self.default_device@)
        &&& self.sessions.wf()
        &&& forall|i: int|
            0 <= i < self.devices@.len() ==> lock_sound(
                #[trigger] self.devices@[i],
                self.sessions.map(),
            )
    }

    /// The position of the device with this id.
    pub fn find_device(&self, id: &str) -> (r: Option<usize>)
        ensures
            r is Some <==> has_device(self.devices@, id@),
            r matches Some(i) ==> is_device_at(self.devices@, id@, i as int),
    {
        let mut i: usize = 0;
        while i < self.devices.len()
            invariant
                i <= self.devices@.len(),
                forall|j: int| 0 <= j < i ==> !is_device_at(self.devices@, id@, j),
            decreases self.devices@.len() - i,
        {
            if str_eq(self.devices[i].id.as_str(), id) {
                assert(is_device_at(self.devices@, id@, i as int));
                return Some(i);
            }
            i = i + 1;
        }
        None
    }

    /// The position of the default device.
    pub fn default_index(&self) -> (i: usize)
        requires
            self.wf(),
        ensures
            is_device_at(self.devices@, self.default_device@, i as int),
    {
        match self.find_device(self.default_device.as_str()) {
            Some(i) => i,
            None => 0,
        }
    }

    /// The device a request with this `device_id` goes to.
    pub open spec fn resolves(&self, id: Option<Seq<char>>, i: int) -> bool {
        match id {
            Some(name) => is_device_at(self.devices@, name, i),
            None => self.devices@.len() == 1 && i == 0,
        }
    }

    /// Resolves a target device given an optional `device_id` from the wire.
    ///
    /// - `Some(id)` → look it up; `DeviceNotFound` if missing.
    /// - `None` and exactly one device → that device.
    /// - `None` and multiple devices → `AmbiguousDevice` error.
    pub fn resolve_device(&self, id: Option<&str>) -> (r: Result<usize, ProtocolError>)
        requires
            self.wf(),
        ensures
            match (r, id) {
                (Ok(i), Some(name)) => self.resolves(Some(name@), i as int),
                (Ok(i), None) => self.resolves(None, i as int) && is_device_at(
                    self.devices@,
                    self.default_device@,
                    i as int,
                ),
                (Err(e), Some(name)) => !has_device(self.devices@, name@) && e.says(
                    ErrorCode::DeviceNotFound,
                    "device "@ + quoted_text(name@) + " not managed by this daemon"@,
                ),
                (Err(e), None) => self.devices@.len() != 1 && e.says(
                    ErrorCode::AmbiguousDevice,
                    "daemon serves "@ + decimal(self.devices@.len())
                        + " devices; pass device_id to select one"@,
                ),
            },
    {
        if let Some(name) = id {
            return match self.find_device(name) {
                Some(i) => Ok(i),
                None => Err(device_not_managed(quoted(name).as_str())),
            };
        }
        if self.devices.len() == 1 {
            let i: usize = self.default_index();
            return Ok(i);
        }
        let n = dec_u64(self.devices.len() as u64);
        let msg = cat3("daemon serves ", n.as_str(), " devices; pass device_id to select one");
        Err(err_with(ErrorCode::AmbiguousDevice, msg.as_str()))
    }

    /// The device that a session is bound to.
    pub open spec fn session_device(&self, sid: Seq<char>) -> Seq<char> {
        self.sessions.map()[sid].device_id@
    }

    /// Looks up the device a session is bound to. Used by requests that name a
    /// session rather than a device.
    pub fn device_for_session(&self, session_id: &str) -> (r: Result<usize, ProtocolError>)
        requires
            self.wf(),
        ensures
            match r {
                Ok(i) => self.sessions.map().contains_key(session_id@) && is_device_at(
                    self.devices@,
                    self.session_device(session_id@),
                    i as int,
                ),
                Err(e) => if !self.sessions.map().contains_key(session_id@) {
                    e.is_plain(ErrorCode::SessionNotFound)
                } else {
                    !has_device(self.devices@, self.session_device(session_id@)) && e.says(
                        ErrorCode::DeviceNotFound,
                        "session bound to missing device "@ + quoted_text(
                            self.session_device(session_id@),
                        ),
                    )
                },
            },
    {
        match self.sessions.get(session_id) {
            Some(s) => match self.find_device(s.device_id.as_str()) {
                Some(i) => Ok(i),
                None => Err(session_device_missing(quoted(s.device_id.as_str()).as_str())),
            },
            None => Err(ProtocolError::new(ErrorCode::SessionNotFound)),
        }
    }

    /// Best-effort lock release at teardown (session `detach`, connection
    /// close): if `session_id` held its device's writer lock, frees it so it
    /// doesn't outlive the session with no way to `unlock` it. Returns the
    /// device whose waiting sessions are to be woken, if any.
    pub fn release_lock_for_session(&mut self, session_id: &str) -> (woken: Option<usize>)
        requires
            old(self).wf(),
        ensures
            final(self).wf(),
            final(self).default_device == old(self).default_device,
            final(self).sessions == old(self).sessions,
            final(self).auth_token == old(self).auth_token,
            final(self).devices@.len() == old(self).devices@.len(),
            forall|j: int|
                0 <= j < old(self).devices@.len() ==> {
                    let before = old(self).devices@[j];
                    let after = #[trigger] final(self).devices@[j];
                    &&& same_but_lock(before, after)
                    &&& after.lock@ == (if old(self).sessions.map().contains_key(session_id@)
                        && before.id@ == old(self).session_device(session_id@) {
                        after_release(before.lock@, session_id@)
                    } else {
                        before.lock@
                    })
                },
            woken matches Some(i) ==> i < old(self).devices@.len()
                && old(self).devices@[i as int].lock@ is Some
                && final(self).devices@[i as int].lock@ is None,
            woken matches Some(i) ==> only_device_changed(
                old(self).devices@,
                final(self).devices@,
                i as int,
            ),
            woken is None ==> forall|j: int|
                0 <= j < old(self).devices@.len() ==> (#[trigger] final(self).devices@[j]).lock@
                    == old(self).devices@[j].lock@,
    {
        match self.device_for_session(session_id) {
            Ok(i) => {
                let r = release_lock_if_holder(&mut self.devices[i].lock, session_id);
                assert(has_device(self.devices@, self.default_device@)) by {
                    let d = choose|d: int| is_device_at(old(self).devices@, old(self).default_device@, d);
                    assert(is_device_at(self.devices@, self.default_device@, d));
                }
                assert forall|j: int| 0 <= j < self.devices@.len() && j != i implies (
                #[trigger] self.devices@[j]).id@ != old(self).session_device(session_id@) by {
                    assert(self.devices@[j] == old(self).devices@[j]);
                    assert(old(self).devices@[i as int].id@ != old(self).devices@[j].id@);
                }
                match r {
                    Ok(wake) => if wake {
                        Some(i)
                    } else {
                        None
                    },
                    Err(_) => None,
                }
            },
            Err(_) => {
                assert forall|j: int|
                    0 <= j < self.devices@.len() && self.sessions.map().contains_key(
                        session_id@,
                    ) implies (#[trigger] self.devices@[j]).id@ != self.session_device(
                    session_id@,
                ) by {
                    assert(!is_device_at(self.devices@, self.session_device(session_id@), j));
                }
                None
            },
        }
    }
}

} // verus!
