//! One client connection: what it may call, which sessions it owns, what it is
//! notified of, and what its end leaves behind.

use vstd::prelude::*;
use vstd::string::*;

use crate::buffer::{lag_at, LagInfo};
use crate::encoding::{b64_encode, carries};
use crate::error::{err_with, ErrorCode, ProtocolError};
use crate::message::{DataNotify, DeviceNotify, LagNotify};
use crate::session::{without, FlowControl, Session};
use crate::state::{lock_sound, same_but_lock, DaemonState, Device, DeviceEvent};
use crate::text::{cat2, clone_opt, opt_view, str_eq, views};

verus! {

/// Per-connection ephemeral state.
#[derive(Debug)]
pub struct ConnState {
    initialized: bool,
    client_kind: Option<String>,
    /// The ids of the sessions this connection attached, each once.
    sessions: Vec<String>,
    /// True for transports that require token authentication (TCP).
    /// False for transports authenticated by the OS (Unix domain sockets).
    requires_auth: bool,
}

impl ConnState {
    pub closed spec fn wf(&self) -> bool {
        views(self.sessions@).no_duplicates()
    }

    /// A `hello` succeeded on this connection.
    pub closed spec fn greeted(&self) -> bool {
        self.initialized
    }

    /// The kind of client that said `hello`.
    pub closed spec fn kind(&self) -> Option<Seq<char>> {
        opt_view(self.client_kind)
    }

    pub closed spec fn needs_token(&self) -> bool {
        self.requires_auth
    }

    /// The sessions this connection owns, in the order it attached them.
    pub closed spec fn owned(&self) -> Seq<Seq<char>> {
        views(self.sessions@)
    }

    /// Nothing but the session list differs.
    pub open spec fn same_but_sessions(&self, other: &ConnState) -> bool {
        self.greeted() == other.greeted() && self.kind() == other.kind() && self.needs_token()
            == other.needs_token()
    }

    /// No session is owned twice.
    pub proof fn law_owned_once(&self)
        requires
            self.wf(),
        ensures
            self.owned().no_duplicates(),
    {
    }

    pub fn new(requires_auth: bool) -> (c: Self)
        ensures
            c.wf(),
            !c.greeted(),
            c.kind() is None,
            c.needs_token() == requires_auth,
            c.owned() == Seq::<Seq<char>>::empty(),
    {
        let c = ConnState {
            initialized: false,
            client_kind: None,
            sessions: Vec::new(),
            requires_auth,
        };
        assert(c.owned() =~= Seq::<Seq<char>>::empty());
        c
    }

    pub fn requires_auth(&self) -> (b: bool)
        ensures
            b == self.needs_token(),
    {
        self.requires_auth
    }

    pub fn set_initialized(&mut self, kind: &str)
        requires
            old(self).wf(),
        ensures
            final(self).wf(),
            final(self).greeted(),
            final(self).kind() == Some(kind@),
            final(self).needs_token() == old(self).needs_token(),
            final(self).owned() == old(self).owned(),
    {
        self.initialized = true;
        self.client_kind = Some(kind.to_owned());
    }

    pub fn is_initialized(&self) -> (b: bool)
        ensures
            b == self.greeted(),
    {
        self.initialized
    }

    fn position(&self, id: &str) -> (r: Option<usize>)
        requires
            self.wf(),
        ensures
            r is Some <==> self.owned().contains(id@),
            r matches Some(i) ==> i < self.sessions@.len() && self.owned()[i as int] == id@,
    {
        let mut i: usize = 0;
        while i < self.sessions.len()
            invariant
                i <= self.sessions@.len(),
                forall|j: int| 0 <= j < i ==> #[trigger] self.owned()[j] != id@,
            decreases self.sessions@.len() - i,
        {
            if str_eq(self.sessions[i].as_str(), id) {
                assert(self.owned()[i as int] == id@);
                return Some(i);
            }
            assert(self.owned()[i as int] != id@);
            i = i + 1;
        }
        None
    }

    pub fn add_session(&mut self, id: &str)
        requires
            old(self).wf(),
        ensures
            final(self).wf(),
            final(self).same_but_sessions(old(self)),
            final(self).owned() == (if old(self).owned().contains(id@) {
                old(self).owned()
            } else {
                old(self).owned().push(id@)
            }),
    {
        if self.position(id).is_none() {
            self.sessions.push(id.to_owned());
            assert(self.owned() =~= old(self).owned().push(id@));
        }
    }

    pub fn remove_session(&mut self, id: &str)
        requires
            old(self).wf(),
        ensures
            final(self).wf(),
            final(self).same_but_sessions(old(self)),
            final(self).owned() == without(old(self).owned(), id@),
            forall|s: Seq<char>| #[trigger]
                final(self).owned().contains(s) <==> old(self).owned().contains(s) && s != id@,
    {
        let ghost before = self.owned();
        if let Some(i) = self.position(id) {
            let _ = self.sessions.remove(i);
            let ghost after = self.owned();
            assert(after =~= before.remove(i as int));
            assert(before.index_of(id@) == i as int);
            assert forall|a: int, b: int|
                0 <= a < after.len() && 0 <= b < after.len() && a != b implies after[a]
                != after[b] by {
                let a2 = if a < i { a } else { a + 1 };
                let b2 = if b < i { b } else { b + 1 };
                assert(after[a] == before[a2] && after[b] == before[b2]);
            }
            assert forall|s: Seq<char>| #[trigger]
                after.contains(s) <==> before.contains(s) && s != id@ by {
                if after.contains(s) {
                    let a = choose|a: int| 0 <= a < after.len() && after[a] == s;
                    let a2 = if a < i { a } else { a + 1 };
                    assert(before[a2] == s);
                    assert(before[i as int] == id@);
                }
                if before.contains(s) && s != id@ {
                    let b = choose|b: int| 0 <= b < before.len() && before[b] == s;
                    let a = if b < i { b } else { b - 1 };
                    assert(after[a] == s);
                }
            }
        }
    }

    pub fn has_session(&self, id: &str) -> (b: bool)
        requires
            self.wf(),
        ensures
            b == self.owned().contains(id@),
    {
        self.position(id).is_some()
    }

    pub fn session_ids(&self) -> (ids: Vec<String>)
        ensures
            views(ids@) == self.owned(),
    {
        let mut ids: Vec<String> = Vec::new();
        let mut i: usize = 0;
        while i < self.sessions.len()
            invariant
                i <= self.sessions@.len(),
                ids@ == self.sessions@.take(i as int),
            decreases self.sessions@.len() - i,
        {
            ids.push(self.sessions[i].clone());
            i = i + 1;
            assert(ids@ =~= self.sessions@.take(i as int));
        }
        assert(self.sessions@.take(i as int) =~= self.sessions@);
        ids
    }
}

// ---------- Dispatch ----------

/// The methods a client can call.
#[derive(Debug, Clone, Copy, PartialEq, Eq, Structural)]
pub enum Method {
    Hello,
    Attach,
    Detach,
    Send,
    Expect,
    Run,
    Lock,
    Unlock,
    Status,
    ListPorts,
    ListDevices,
    SetDevice,
    Reconnect,
    SendBreak,
    SetDtr,
    SetRts,
    ReadModemStatus,
    DisconnectDevice,
    ConnectDevice,
}

impl Method {
    pub open spec fn name(self) -> Seq<char> {
        match self {
            Method::Hello => "hello"@,
            Method::Attach => "attach"@,
            Method::Detach => "detach"@,
            Method::Send => "send"@,
            Method::Expect => "expect"@,
            Method::Run => "run"@,
            Method::Lock => "lock"@,
            Method::Unlock => "unlock"@,
            Method::Status => "status"@,
            Method::ListPorts => "list_ports"@,
            Method::ListDevices => "list_devices"@,
            Method::SetDevice => "set_device"@,
            Method::Reconnect => "reconnect"@,
            Method::SendBreak => "send_break"@,
            Method::SetDtr => "set_dtr"@,
            Method::SetRts => "set_rts"@,
            Method::ReadModemStatus => "read_modem_status"@,
            Method::DisconnectDevice => "disconnect_device"@,
            Method::ConnectDevice => "connect_device"@,
        }
    }

    pub fn as_str(self) -> (s: &'static str)
        ensures
            s@ == self.name(),
    {
        match self {
            Method::Hello => "hello",
            Method::Attach => "attach",
            Method::Detach => "detach",
            Method::Send => "send",
            Method::Expect => "expect",
            Method::Run => "run",
            Method::Lock => "lock",
            Method::Unlock => "unlock",
            Method::Status => "status",
            Method::ListPorts => "list_ports",
            Method::ListDevices => "list_devices",
            Method::SetDevice => "set_device",
            Method::Reconnect => "reconnect",
            Method::SendBreak => "send_break",
            Method::SetDtr => "set_dtr",
            Method::SetRts => "set_rts",
            Method::ReadModemStatus => "read_modem_status",
            Method::DisconnectDevice => "disconnect_device",
            Method::ConnectDevice => "connect_device",
        }
    }
}

/// Some method has this name.
pub open spec fn is_method_name(name: Seq<char>) -> bool {
    exists|m: Method| #[trigger] m.name() == name
}

fn name_is(method: Method, name: &str) -> (b: bool)
    ensures
        b == (method.name() == name@),
{
    str_eq(method.as_str(), name)
}

/// The method with this name.
pub fn parse_method(name: &str) -> (r: Option<Method>)
    ensures
        r matches Some(m) ==> m.name() == name@,
        r is Some <==> is_method_name(name@),
{
    let all: [Method; 19] = [
        Method::Hello,
        Method::Attach,
        Method::Detach,
        Method::Send,
        Method::Expect,
        Method::Run,
        Method::Lock,
        Method::Unlock,
        Method::Status,
        Method::ListPorts,
        Method::ListDevices,
        Method::SetDevice,
        Method::Reconnect,
        Method::SendBreak,
        Method::SetDtr,
        Method::SetRts,
        Method::ReadModemStatus,
        Method::DisconnectDevice,
        Method::ConnectDevice,
    ];
    let mut i: usize = 0;
    while i < 19
        invariant
            i <= 19,
            forall|j: int| 0 <= j < i ==> (#[trigger] all@[j]).name() != name@,
        decreases 19 - i,
    {
        if name_is(all[i], name) {
            return Some(all[i]);
        }
        i = i + 1;
    }
    proof {
        assert forall|m: Method| #[trigger] m.name() != name@ by {
            let k: int = match m {
                Method::Hello => 0,
                Method::Attach => 1,
                Method::Detach => 2,
                Method::Send => 3,
                Method::Expect => 4,
                Method::Run => 5,
                Method::Lock => 6,
                Method::Unlock => 7,
                Method::Status => 8,
                Method::ListPorts => 9,
                Method::ListDevices => 10,
                Method::SetDevice => 11,
                Method::Reconnect => 12,
                Method::SendBreak => 13,
                Method::SetDtr => 14,
                Method::SetRts => 15,
                Method::ReadModemStatus => 16,
                Method::DisconnectDevice => 17,
                Method::ConnectDevice => 18,
            };
            assert(all@[k] == m);
        }
    }
    None
}

/// Methods that may block for a long time waiting on device output (a pattern
/// match or a reconnect) — or, for `lock` with `preempt:"queue"`, on another
/// session's release. These run on their own task so they don't stall
/// in-order processing of the rest of the connection. Everything else — most
/// importantly `send` — is dispatched inline, in arrival order, so writes reach
/// the device in exactly the order the client issued them.
pub fn is_blocking_method(method: &str) -> (b: bool)
    ensures
        b == (method@ == "expect"@ || method@ == "run"@ || method@ == "reconnect"@ || method@
            == "lock"@),
{
    str_eq(method, "expect") || str_eq(method, "run") || str_eq(method, "reconnect") || str_eq(
        method,
        "lock",
    )
}

/// Decides what a request is for. Until a `hello` succeeded, nothing else is
/// served.
pub fn dispatch(conn: &ConnState, method: &str) -> (r: Result<Method, ProtocolError>)
    ensures
        match r {
            Ok(m) => m.name() == method@ && (m is Hello || conn.greeted()),
            Err(e) => if !is_method_name(method@) {
                e.says(ErrorCode::MethodNotFound, "method not found: "@ + method@)
            } else {
                !conn.greeted() && method@ != "hello"@ && e.is_plain(ErrorCode::NotInitialized)
            },
        },
{
    match parse_method(method) {
        Some(m) => {
            if m == Method::Hello || conn.is_initialized() {
                Ok(m)
            } else {
                proof {
                    assert(m != Method::Hello);
                    lemma_only_hello_is_hello(m);
                }
                Err(ProtocolError::new(ErrorCode::NotInitialized))
            }
        },
        None => {
            let msg = cat2("method not found: ", method);
            Err(err_with(ErrorCode::MethodNotFound, msg.as_str()))
        },
    }
}

/// No other method is named `hello`.
pub proof fn lemma_only_hello_is_hello(m: Method)
    ensures
        m.name() == "hello"@ ==> m is Hello,
{
    reveal_strlit("hello");
    reveal_strlit("attach");
    reveal_strlit("detach");
    reveal_strlit("send");
    reveal_strlit("expect");
    reveal_strlit("run");
    reveal_strlit("lock");
    reveal_strlit("unlock");
    reveal_strlit("status");
    reveal_strlit("list_ports");
    reveal_strlit("list_devices");
    reveal_strlit("set_device");
    reveal_strlit("reconnect");
    reveal_strlit("send_break");
    reveal_strlit("set_dtr");
    reveal_strlit("set_rts");
    reveal_strlit("read_modem_status");
    reveal_strlit("disconnect_device");
    reveal_strlit("connect_device");
    assert("hello"@.len() == 5);
}

// ---------- Notifications ----------

/// What one session is due, before it is put into wire form.
#[derive(Debug)]
pub struct Due {
    pub lag: Option<LagInfo>,
    /// The bytes and the sequence number of the first.
    pub chunk: Vec<u8>,
    pub seq: u64,
    pub next_cursor: u64,
}

/// The notifications for one session.
#[derive(Debug)]
pub struct FanOut {
    pub lag: Option<LagNotify>,
    pub data: Option<DataNotify>,
}

/// What a session at its cursor is due from its device: all bytes from the
/// cursor on that are still kept, and, under `drop_oldest`, word of those that
/// are not.
pub open spec fn is_due(device: Device, session: Session, due: Due) -> bool {
    let ring = device.buffer;
    let cursor = session.notify_cursor;
    &&& due.chunk@ == ring.readable(cursor as int)
    &&& due.next_cursor == (if cursor >= ring.head() {
        cursor as nat
    } else {
        ring.head()
    })
    &&& due.seq == due.next_cursor - due.chunk@.len()
    &&& due.lag == (if cursor < ring.tail() && session.flow_control is DropOldest {
        Some(lag_at(cursor, ring.tail() as u64))
    } else {
        None
    })
}

/// Works out what a session is due.
pub fn due_for_session(device: &Device, session: &Session) -> (due: Due)
    requires
        device.wf(),
    ensures
        is_due(*device, *session, due),
{
    let (chunk, next_cursor, lag) = device.buffer.read_from(session.notify_cursor);
    let seq: u64 = next_cursor - chunk.len() as u64;
    let lag = match session.flow_control {
        FlowControl::DropOldest => lag,
        FlowControl::Disconnect => None,
    };
    Due { lag, chunk, seq, next_cursor }
}

/// `f` tells session `sid` on device `dev` what it is due.
pub open spec fn is_fan_out(due: Due, sid: Seq<char>, dev: Seq<char>, f: FanOut) -> bool {
    &&& match due.lag {
        Some(l) => f.lag matches Some(n) && {
            &&& n.session_id@ == sid
            &&& n.dropped_bytes == l.dropped_bytes
            &&& n.dropped_range@ == seq![l.dropped_range.0, l.dropped_range.1]
            &&& n.resume_seq == l.resume_seq
            &&& opt_view(n.device_id) == Some(dev)
        },
        None => f.lag is None,
    }
    &&& if due.chunk@.len() > 0 {
        f.data matches Some(n) && {
            &&& n.session_id@ == sid
            &&& n.seq == due.seq
            &&& carries(n.data@, due.chunk@)
            &&& opt_view(n.device_id) == Some(dev)
        }
    } else {
        f.data is None
    }
}

/// Puts what a session is due into wire form.
pub fn notify_due(due: &Due, session_id: &str, device_id: &str) -> (f: FanOut)
    ensures
        is_fan_out(*due, session_id@, device_id@, f),
{
    let lag = match &due.lag {
        Some(l) => {
            let n = LagNotify {
                session_id: session_id.to_owned(),
                dropped_bytes: l.dropped_bytes,
                dropped_range: [l.dropped_range.0, l.dropped_range.1],
                resume_seq: l.resume_seq,
                device_id: Some(device_id.to_owned()),
            };
            assert(n.dropped_range@ =~= seq![l.dropped_range.0, l.dropped_range.1]);
            Some(n)
        },
        None => None,
    };
    let data = if due.chunk.len() > 0 {
        Some(
            DataNotify {
                session_id: session_id.to_owned(),
                seq: due.seq,
                data: b64_encode(due.chunk.as_slice()),
                device_id: Some(device_id.to_owned()),
            },
        )
    } else {
        None
    };
    FanOut { lag, data }
}

/// A session is told what it is due, and its notification cursor moves past
/// it; nothing else changes.
pub open spec fn is_fan_out_round(
    device: Device,
    before: Map<Seq<char>, Session>,
    sid: Seq<char>,
    due: Due,
    f: FanOut,
    after: Map<Seq<char>, Session>,
) -> bool {
    &&& is_due(device, before[sid], due)
    &&& is_fan_out(due, sid, device.id@, f)
    &&& after == before.insert(
        sid,
        (Session { notify_cursor: due.next_cursor, ..before[sid] }),
    )
}

/// One round of fan-out to one session: what it is due from device `dev`, its
/// notification cursor moved past it. A session that does not exist or is
/// bound to another device is due nothing.
pub fn fan_out(state: &mut DaemonState, session_id: &str, dev: usize) -> (r: Option<FanOut>)
    requires
        old(state).wf(),
        dev < old(state).devices@.len(),
    ensures
        final(state).wf(),
        final(state).devices == old(state).devices,
        final(state).default_device == old(state).default_device,
        final(state).auth_token == old(state).auth_token,
        r is Some <==> old(state).sessions.map().contains_key(session_id@)
            && old(state).session_device(session_id@)
            == old(state).devices@[dev as int].id@,
        r is None ==> final(state).sessions == old(state).sessions,
        r matches Some(f) ==> exists|due: Due|
            #[trigger] is_fan_out_round(
                old(state).devices@[dev as int],
                old(state).sessions.map(),
                session_id@,
                due,
                f,
                final(state).sessions.map(),
            ),
{
    let due = match state.sessions.get(session_id) {
        Some(session) => {
            let device = &state.devices[dev];
            if !str_eq(session.device_id.as_str(), device.id.as_str()) {
                return None;
            }
            due_for_session(device, session)
        },
        None => {
            return None;
        },
    };
    let f = notify_due(&due, session_id, state.devices[dev].id.as_str());
    state.sessions.set_notify_cursor(session_id, due.next_cursor);
    assert(is_fan_out_round(
        old(state).devices@[dev as int],
        old(state).sessions.map(),
        session_id@,
        due,
        f,
        state.sessions.map(),
    ));
    Some(f)
}

/// The `device` notification for an event of a device.
pub fn device_notify(event: &DeviceEvent, device_id: &str) -> (n: DeviceNotify)
    ensures
        n.kind@ == event.kind.name(),
        opt_view(n.detail) == opt_view(event.detail),
        opt_view(n.device_id) == Some(device_id@),
{
    DeviceNotify {
        kind: event.kind.as_str().to_owned(),
        detail: clone_opt(&event.detail),
        device_id: Some(device_id.to_owned()),
    }
}

// ---------- The end of a connection ----------

/// The lock of a device after the sessions `gone` ended: freed if one of them
/// held it and was bound to the device.
pub open spec fn lock_without(
    held: Option<(Seq<char>, bool)>,
    device_id: Seq<char>,
    gone: Seq<Seq<char>>,
    sessions: Map<Seq<char>, Session>,
) -> Option<(Seq<char>, bool)> {
    match held {
        Some(h) => if gone.contains(h.0) && sessions.contains_key(h.0)
            && sessions[h.0].device_id@ == device_id {
            None
        } else {
            held
        },
        None => None,
    }
}

/// Ends every session of a connection: frees the writer locks they held — else
/// an exclusive lock of a client that crashed mid-flash would strand the
/// device locked forever — and removes them. Returns the devices whose waiting
/// sessions are to be woken.
pub fn end_connection(state: &mut DaemonState, conn: &ConnState) -> (woken: Vec<usize>)
    requires
        old(state).wf(),
        conn.wf(),
    ensures
        final(state).wf(),
        final(state).default_device == old(state).default_device,
        final(state).auth_token == old(state).auth_token,
        final(state).sessions.map() == old(state).sessions.map().remove_keys(
            conn.owned().to_set(),
        ),
        final(state).devices@.len() == old(state).devices@.len(),
        forall|j: int|
            0 <= j < old(state).devices@.len() ==> same_but_lock(
                old(state).devices@[j],
                #[trigger] final(state).devices@[j],
            ) && final(state).devices@[j].lock@ == lock_without(
                old(state).devices@[j].lock@,
                old(state).devices@[j].id@,
                conn.owned(),
                old(state).sessions.map(),
            ),
        forall|j: int|
            0 <= j < old(state).devices@.len()
                && (#[trigger] final(state).devices@[j]).lock@
                != old(state).devices@[j].lock@
                ==> woken@.contains(j as usize),
        forall|k: int|
            0 <= k < woken@.len() ==> (#[trigger] woken@[k])
                < old(state).devices@.len()
                && old(state).devices@[woken@[k] as int].lock@ is Some
                && final(state).devices@[woken@[k] as int].lock@ is None,
{
    let ids = conn.session_ids();
    let mut woken: Vec<usize> = Vec::new();
    let mut i: usize = 0;
    let ghost all = conn.owned();
    let ghost start = old(state).sessions.map();
    proof {
        assert(all.take(0).to_set() =~= Set::empty());
        assert(start.remove_keys(Set::empty()) =~= start);
    }
    while i < ids.len()
        invariant
            i <= ids@.len(),
            views(ids@) == all,
            all.no_duplicates(),
            start == old(state).sessions.map(),
            state.wf(),
            state.default_device == old(state).default_device,
            state.auth_token == old(state).auth_token,
            state.sessions.map() == start.remove_keys(all.take(i as int).to_set()),
            state.devices@.len() == old(state).devices@.len(),
            forall|j: int|
                0 <= j < old(state).devices@.len() ==> same_but_lock(
                    old(state).devices@[j],
                    #[trigger] state.devices@[j],
                ) && state.devices@[j].lock@ == lock_without(
                    old(state).devices@[j].lock@,
                    old(state).devices@[j].id@,
                    all.take(i as int),
                    start,
                ),
            forall|j: int|
                0 <= j < old(state).devices@.len()
                    && (#[trigger] state.devices@[j]).lock@
                    != old(state).devices@[j].lock@
                    ==> woken@.contains(j as usize),
            forall|k: int|
                0 <= k < woken@.len() ==> (#[trigger] woken@[k]) < old(state).devices@.len()
                    && old(state).devices@[woken@[k] as int].lock@ is Some
                    && state.devices@[woken@[k] as int].lock@ is None,
        decreases ids@.len() - i,
    {
        let ghost sid = all[i as int];
        assert(ids@[i as int]@ == sid);
        let ghost before = *state;
        let ghost done = all.take(i as int);
        assert(!done.contains(sid)) by {
            if done.contains(sid) {
                let k = choose|k: int| 0 <= k < done.len() && done[k] == sid;
                assert(all[k] == all[i as int]);
            }
        }
        assert(before.sessions.map().contains_key(sid) == start.contains_key(sid));
        let ghost woken_before = woken@;
        if let Some(d) = state.release_lock_for_session(ids[i].as_str()) {
            woken.push(d);
        }
        let _ = state.sessions.remove(ids[i].as_str());
        proof {
            let next = all.take(i + 1);
            assert(next =~= done.push(sid));
            assert(forall|s: Seq<char>| #[trigger]
                next.contains(s) <==> done.contains(s) || s == sid) by {
                assert forall|s: Seq<char>| #[trigger]
                    next.contains(s) <==> done.contains(s) || s == sid by {
                    if done.contains(s) {
                        let k = choose|k: int| 0 <= k < done.len() && done[k] == s;
                        assert(next[k] == s);
                    }
                    if s == sid {
                        assert(next[i as int] == s);
                    }
                    if next.contains(s) {
                        let k = choose|k: int| 0 <= k < next.len() && next[k] == s;
                        if k < i {
                            assert(done[k] == s);
                        }
                    }
                }
            }
            assert(state.sessions.map() =~= start.remove_keys(next.to_set()));
            assert forall|j: int| 0 <= j < state.devices@.len() implies lock_sound(
                #[trigger] state.devices@[j],
                state.sessions.map(),
            ) by {
                assert(lock_sound(before.devices@[j], before.sessions.map()));
            }
            assert forall|j: int|
                0 <= j < old(state).devices@.len() && (#[trigger] state.devices@[j]).lock@
                    != old(state).devices@[j].lock@ implies woken@.contains(j as usize) by {
                if state.devices@[j].lock@ == before.devices@[j].lock@ {
                    assert(woken_before.contains(j as usize));
                    let k = choose|k: int|
                        0 <= k < woken_before.len() && woken_before[k] == j as usize;
                    assert(woken@[k] == j as usize);
                } else {
                    assert(woken@.last() == j as usize);
                }
            }
        }
        i = i + 1;
    }
    assert(all.take(i as int) =~= all);
    woken
}

/// A session that ended with its connection holds no lock, whatever it held
/// before; and a lock that another session holds is left alone.
pub proof fn law_ended_sessions_hold_nothing(
    device: Device,
    gone: Seq<Seq<char>>,
    sessions: Map<Seq<char>, Session>,
)
    requires
        lock_sound(device, sessions),
    ensures
        lock_without(device.lock@, device.id@, gone, sessions) matches Some(h) ==> !gone.contains(
            h.0,
        ),
        device.lock@ matches Some(h) ==> !gone.contains(h.0) ==> lock_without(
            device.lock@,
            device.id@,
            gone,
            sessions,
        ) == device.lock@,
{
}

/// Telling a session what it is due never moves the cursor that its `expect`
/// and `run` read from, and touches no other session.
pub proof fn law_cursors_independent(
    device: Device,
    before: Map<Seq<char>, Session>,
    sid: Seq<char>,
    other: Seq<char>,
    due: Due,
    f: FanOut,
    after: Map<Seq<char>, Session>,
)
    requires
        is_fan_out_round(device, before, sid, due, f, after),
        before.contains_key(sid),
    ensures
        after[sid].consumer_cursor == before[sid].consumer_cursor,
        other != sid ==> after.contains_key(other) == before.contains_key(other),
        other != sid && before.contains_key(other) ==> after[other] == before[other],
{
}

/// Bytes are delivered once and in order: a session's next round starts where
/// the last one ended, and while nothing is dropped the two chunks together
/// are the stream.
pub proof fn law_rounds_are_gapless(
    first: Device,
    second: Device,
    session: Session,
    due1: Due,
    due2: Due,
)
    requires
        is_due(first, session, due1),
        is_due(second, (Session { notify_cursor: due1.next_cursor, ..session }), due2),
        first.buffer.stream().is_prefix_of(second.buffer.stream()),
        first.buffer.tail() <= session.notify_cursor <= first.buffer.head(),
        second.buffer.tail() <= session.notify_cursor,
    ensures
        due1.seq == session.notify_cursor,
        due1.chunk@.len() > 0 ==> due1.lag is None,
        due2.seq == due1.seq + due1.chunk@.len(),
        due1.chunk@ + due2.chunk@ == second.buffer.readable(session.notify_cursor as int),
{
    crate::buffer::law_reads_concatenate(
        &first.buffer,
        &second.buffer,
        session.notify_cursor as int,
    );
}

} // verus!
