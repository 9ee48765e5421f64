//! What the daemon promises its clients: from the request that comes in and the
//! state it meets to the answer that goes out and the state it leaves.

use vstd::prelude::*;
use vstd::string::*;
use vstd::utf8::*;

use crate::buffer::RingBuffer;
use crate::conn::{dispatch, end_connection, is_blocking_method, ConnState, Method};
use crate::encoding::{base64_bytes, carries};
use crate::error::ProtocolError;
use crate::expect::{lemma_step_result, ExpectState, ExpectStep, Interrupt};
use crate::handlers::{
    attach, attach_plan, contends_on, detach, expect, expect_finished, hello, is_contention,
    is_reachable, lock, replay_cursor, run, run_finished, run_interrupt, run_watch, send,
    send_finished, unlock, AttachPlan, LockStart, RunStart, SendPlan,
};
use crate::lock::{
    acquire_lock, reject_if_exclusively_locked, release_lock_if_holder, release_transient_hold,
    LockAttempt, WriterLock,
};
use crate::message::{
    AttachParams, AttachResult, DetachParams, ExpectParams, HelloParams, HelloResult, LockParams,
    ReplaySpec, RunParams, SendParams, SendResult, UnlockParams,
};
use crate::pattern::{regex_error, regex_match};
use crate::scan::{ansi_stripped, echo_stripped, law_stripped_has_no_escape, occurs_at};
use crate::session::{FlowControl as ReaderPolicy, SessionMode};
use crate::state::{is_device_at, lock_sound, same_but_lock, DaemonState};
use crate::text::{lossy_text, opt_view, views};

verus! {

// ---------- run and expect ----------

/// A `run` answers from what the device sent since its bytes were written, with
/// the escape sequences removed if and only if it asked for that: the pattern is
/// looked for there, what stands before it is the output, less the echo of what
/// was sent where that is to be removed, and its end where it is too long. While
/// there is no match, too much data, a lost device, a lost lock and the clock
/// end the wait in this order, and otherwise it goes on for the time left.
pub proof fn law_run_answers_from_what_was_sent(
    p: &RunParams,
    sent: &[u8],
    sent_at_seq: u64,
    w: ExpectState,
    s: &mut ExpectState,
    ring: &RingBuffer,
    elapsed_ms: u64,
    interrupt: Interrupt,
    step: ExpectStep,
    hay: Seq<u8>,
)
    requires
        call_ensures(
            run_watch,
            (p, sent, sent_at_seq),
            Ok::<ExpectState, ProtocolError>(w),
        ),
        old(s).req() == w.req(),
        old(s).wf(),
        ring.tail() <= old(s).next_seq() <= ring.head() <= u64::MAX,
        sent_at_seq <= old(s).next_seq(),
        old(s).bytes() == ring.stream().subrange(sent_at_seq as int, old(s).next_seq() as int),
        forall|k: int|
            0 <= k <= old(s).bytes().len() ==> #[trigger] old(s).seq_at(k) == sent_at_seq + k,
        hay == (if p.until.strip_ansi {
            ansi_stripped(ring.stream().subrange(sent_at_seq as int, ring.head() as int))
        } else {
            ring.stream().subrange(sent_at_seq as int, ring.head() as int)
        }),
        call_ensures(ExpectState::step, (s, ring, elapsed_ms, interrupt), step),
    ensures
        w.bytes().len() == 0 && w.next_seq() == sent_at_seq,
        p.until.strip_ansi ==> !hay.contains(0x1b),
        final(s).wf() && final(s).req() == w.req(),
        final(s).bytes() == ring.stream().subrange(sent_at_seq as int, ring.head() as int),
        final(s).next_seq() == ring.head(),
        forall|k: int|
            0 <= k <= final(s).bytes().len() ==> #[trigger] final(s).seq_at(k) == sent_at_seq + k,
        step matches ExpectStep::Matched(x) ==> exists|start: int, end: int|
            #![trigger hay.subrange(start, end)]
            {
                let before = hay.take(start);
                let output = (if p.strip_echo {
                    echo_stripped(before, sent@)
                } else {
                    before
                });
                &&& 0 <= start <= end <= hay.len()
                &&& p.until.regex ==> regex_match(p.until.pattern@, hay) == Some((start as usize, end as usize))
                &&& !p.until.regex ==> hay.subrange(start, end) == encode_utf8(p.until.pattern@) && forall|j: int|
                    0 <= j < start ==> !occurs_at(hay, encode_utf8(p.until.pattern@), j)
                &&& x.matched && x.match_text@ == lossy_text(hay.subrange(start, end))
                &&& if p.max_output_bytes matches Some(n) && output.len() > n {
                    let n = p.max_output_bytes->Some_0;
                    carries(x.before@, output.skip(output.len() - n)) && x.truncated
                        && x.original_bytes == Some(output.len() as u64)
                } else {
                    carries(x.before@, output) && !x.truncated && x.original_bytes is None
                }
                &&& !p.until.strip_ansi ==> x.match_seq == sent_at_seq + start && x.end_seq == sent_at_seq + end
                &&& p.until.strip_ansi && start < end ==> sent_at_seq <= x.match_seq < x.end_seq <= ring.head()
                    && ring.stream()[x.match_seq as int] == hay[start] && ring.stream()[x.end_seq
                    - 1] == hay[end - 1]
            },
        !(step is Matched) ==> (if p.until.regex {
            regex_match(p.until.pattern@, hay) is None
        } else {
            forall|j: int| !occurs_at(hay, encode_utf8(p.until.pattern@), j)
        }),
        step matches ExpectStep::Failed(e) ==> if ring.head() - sent_at_seq > (match p.max_bytes {
            Some(n) => n,
            None => 1048576u64,
        }) {
            e.code == -32006
        } else if interrupt == Interrupt::DeviceDropped {
            e.code == -32005
        } else if interrupt == Interrupt::LockSeized {
            e.code == -32800
        } else {
            &&& p.timeout_ms matches Some(t) && elapsed_ms >= t
            &&& e.code == -32001
            &&& e.data matches Some(d) && carries(
                d.buffered@,
                ring.stream().subrange(sent_at_seq as int, ring.head() as int),
            ) && d.buffered_seq_range@ == seq![sent_at_seq, ring.head() as u64]
        },
        step matches ExpectStep::Wait(limit) ==> {
            &&& ring.head() - sent_at_seq <= (match p.max_bytes {
            Some(n) => n,
            None => 1048576u64,
        }) && interrupt == Interrupt::Nothing
            &&& match p.timeout_ms {
                Some(t) => elapsed_ms < t && limit == Some((t - elapsed_ms) as u64),
                None => limit is None,
            }
        },
{
    law_stripped_has_no_escape(ring.stream().subrange(sent_at_seq as int, ring.head() as int));
    lemma_step_result(
        *old(s),
        *final(s),
        w.req(),
        sent_at_seq,
        ring,
        elapsed_ms,
        interrupt,
        step,
        hay,
    );
}

/// An `expect` answers in the same way from what the device sent since the
/// number it names, or else since the session's cursor.
pub proof fn law_expect_answers_from_the_cursor(
    state: &DaemonState,
    conn: &ConnState,
    p: &ExpectParams,
    w: (usize, ExpectState),
    from: u64,
    s: &mut ExpectState,
    ring: &RingBuffer,
    elapsed_ms: u64,
    interrupt: Interrupt,
    step: ExpectStep,
    hay: Seq<u8>,
)
    requires
        call_ensures(
            expect,
            (state, conn, p),
            Ok::<(usize, ExpectState), ProtocolError>(w),
        ),
        from == (match p.from_seq {
            Some(n) => n,
            None => state.sessions.map()[p.session_id@].consumer_cursor,
        }),
        old(s).req() == w.1.req(),
        old(s).wf(),
        ring.tail() <= old(s).next_seq() <= ring.head() <= u64::MAX,
        from <= old(s).next_seq(),
        old(s).bytes() == ring.stream().subrange(from as int, old(s).next_seq() as int),
        forall|k: int|
            0 <= k <= old(s).bytes().len() ==> #[trigger] old(s).seq_at(k) == from + k,
        hay == (if p.strip_ansi {
            ansi_stripped(ring.stream().subrange(from as int, ring.head() as int))
        } else {
            ring.stream().subrange(from as int, ring.head() as int)
        }),
        call_ensures(ExpectState::step, (s, ring, elapsed_ms, interrupt), step),
    ensures
        w.1.bytes().len() == 0 && w.1.next_seq() == from,
        state.devices@[w.0 as int].id@ == state.sessions.map()[p.session_id@].device_id@,
        p.strip_ansi ==> !hay.contains(0x1b),
        final(s).wf() && final(s).req() == w.1.req(),
        final(s).bytes() == ring.stream().subrange(from as int, ring.head() as int),
        final(s).next_seq() == ring.head(),
        forall|k: int|
            0 <= k <= final(s).bytes().len() ==> #[trigger] final(s).seq_at(k) == from + k,
        step matches ExpectStep::Matched(x) ==> exists|start: int, end: int|
            #![trigger hay.subrange(start, end)]
            {
                let before = hay.take(start);
                let output = (match p.strip_echo {
                    Some(t) => echo_stripped(before, encode_utf8(t@)),
                    None => before,
                });
                &&& 0 <= start <= end <= hay.len()
                &&& p.regex ==> regex_match(p.pattern@, hay) == Some((start as usize, end as usize))
                &&& !p.regex ==> hay.subrange(start, end) == encode_utf8(p.pattern@) && forall|j: int|
                    0 <= j < start ==> !occurs_at(hay, encode_utf8(p.pattern@), j)
                &&& x.matched && x.match_text@ == lossy_text(hay.subrange(start, end))
                &&& if p.max_output_bytes matches Some(n) && output.len() > n {
                    let n = p.max_output_bytes->Some_0;
                    carries(x.before@, output.skip(output.len() - n)) && x.truncated
                        && x.original_bytes == Some(output.len() as u64)
                } else {
                    carries(x.before@, output) && !x.truncated && x.original_bytes is None
                }
                &&& !p.strip_ansi ==> x.match_seq == from + start && x.end_seq == from + end
                &&& p.strip_ansi && start < end ==> from <= x.match_seq < x.end_seq <= ring.head()
                    && ring.stream()[x.match_seq as int] == hay[start] && ring.stream()[x.end_seq
                    - 1] == hay[end - 1]
            },
        !(step is Matched) ==> (if p.regex {
            regex_match(p.pattern@, hay) is None
        } else {
            forall|j: int| !occurs_at(hay, encode_utf8(p.pattern@), j)
        }),
        step matches ExpectStep::Failed(e) ==> if ring.head() - from > (match p.max_bytes {
            Some(n) => n,
            None => 1048576u64,
        }) {
            e.code == -32006
        } else if interrupt == Interrupt::DeviceDropped {
            e.code == -32005
        } else if interrupt == Interrupt::LockSeized {
            e.code == -32800
        } else {
            &&& p.timeout_ms matches Some(t) && elapsed_ms >= t
            &&& e.code == -32001
            &&& e.data matches Some(d) && carries(
                d.buffered@,
                ring.stream().subrange(from as int, ring.head() as int),
            ) && d.buffered_seq_range@ == seq![from, ring.head() as u64]
        },
        step matches ExpectStep::Wait(limit) ==> {
            &&& ring.head() - from <= (match p.max_bytes {
            Some(n) => n,
            None => 1048576u64,
        }) && interrupt == Interrupt::Nothing
            &&& match p.timeout_ms {
                Some(t) => elapsed_ms < t && limit == Some((t - elapsed_ms) as u64),
                None => limit is None,
            }
        },
{
    law_stripped_has_no_escape(ring.stream().subrange(from as int, ring.head() as int));
    lemma_step_result(
        *old(s),
        *final(s),
        w.1.req(),
        from,
        ring,
        elapsed_ms,
        interrupt,
        step,
        hay,
    );
}

// ---------- Connections ----------

/// Before a `hello` nothing but `hello` is served, and after it everything that
/// has a name; what has none is not found. Only waits are taken out of the
/// order of arrival.
pub proof fn law_hello_comes_first(
    conn: &ConnState,
    method: &str,
    r: Result<Method, ProtocolError>,
    blocking: bool,
)
    requires
        call_ensures(dispatch, (conn, method), r),
        call_ensures(is_blocking_method, (method,), blocking),
    ensures
        r is Ok ==> conn.greeted() || method@ == "hello"@,
        method@ == "hello"@ ==> r == Ok::<Method, ProtocolError>(Method::Hello),
        conn.greeted() && method@ == "attach"@ ==> r == Ok::<Method, ProtocolError>(Method::Attach),
        conn.greeted() && method@ == "detach"@ ==> r == Ok::<Method, ProtocolError>(Method::Detach),
        conn.greeted() && method@ == "send"@ ==> r == Ok::<Method, ProtocolError>(Method::Send),
        conn.greeted() && method@ == "expect"@ ==> r == Ok::<Method, ProtocolError>(Method::Expect),
        conn.greeted() && method@ == "run"@ ==> r == Ok::<Method, ProtocolError>(Method::Run),
        conn.greeted() && method@ == "lock"@ ==> r == Ok::<Method, ProtocolError>(Method::Lock),
        conn.greeted() && method@ == "unlock"@ ==> r == Ok::<Method, ProtocolError>(Method::Unlock),
        conn.greeted() && method@ == "status"@ ==> r == Ok::<Method, ProtocolError>(Method::Status),
        conn.greeted() && method@ == "list_ports"@ ==> r == Ok::<Method, ProtocolError>(
            Method::ListPorts,
        ),
        conn.greeted() && method@ == "list_devices"@ ==> r == Ok::<Method, ProtocolError>(
            Method::ListDevices,
        ),
        conn.greeted() && method@ == "set_device"@ ==> r == Ok::<Method, ProtocolError>(
            Method::SetDevice,
        ),
        conn.greeted() && method@ == "reconnect"@ ==> r == Ok::<Method, ProtocolError>(
            Method::Reconnect,
        ),
        conn.greeted() && method@ == "send_break"@ ==> r == Ok::<Method, ProtocolError>(
            Method::SendBreak,
        ),
        conn.greeted() && method@ == "set_dtr"@ ==> r == Ok::<Method, ProtocolError>(
            Method::SetDtr,
        ),
        conn.greeted() && method@ == "set_rts"@ ==> r == Ok::<Method, ProtocolError>(
            Method::SetRts,
        ),
        conn.greeted() && method@ == "read_modem_status"@ ==> r == Ok::<Method, ProtocolError>(
            Method::ReadModemStatus,
        ),
        conn.greeted() && method@ == "disconnect_device"@ ==> r == Ok::<Method, ProtocolError>(
            Method::DisconnectDevice,
        ),
        conn.greeted() && method@ == "connect_device"@ ==> r == Ok::<Method, ProtocolError>(
            Method::ConnectDevice,
        ),
        r matches Err(e) ==> e.code == -32601 || (e.code == -32011 && !conn.greeted()),
        blocking <==> method@ == "expect"@ || method@ == "run"@ || method@ == "reconnect"@ || method@
            == "lock"@,
{
    lemma_method_names();
    assert(Method::Hello.name() == "hello"@);
    if conn.greeted() {
        assert(Method::Attach.name() == "attach"@ && Method::Detach.name() == "detach"@
            && Method::Send.name() == "send"@ && Method::Expect.name() == "expect"@
            && Method::Run.name() == "run"@ && Method::Lock.name() == "lock"@
            && Method::Unlock.name() == "unlock"@ && Method::Status.name() == "status"@
            && Method::ListPorts.name() == "list_ports"@ && Method::ListDevices.name()
            == "list_devices"@ && Method::SetDevice.name() == "set_device"@
            && Method::Reconnect.name() == "reconnect"@ && Method::SendBreak.name()
            == "send_break"@ && Method::SetDtr.name() == "set_dtr"@ && Method::SetRts.name()
            == "set_rts"@ && Method::ReadModemStatus.name() == "read_modem_status"@
            && Method::DisconnectDevice.name() == "disconnect_device"@
            && Method::ConnectDevice.name() == "connect_device"@);
    }
}

/// No two methods share a name.
proof fn lemma_method_names()
    ensures
        forall|a: Method, b: Method| #[trigger] a.name() == #[trigger] b.name() ==> a == b,
{
    reveal_strlit("hello");
    reveal_strlit("attach");
    reveal_strlit("detach");
    reveal_strlit("send");
    reveal_strlit("expect");
    reveal_strlit("run");
    reveal_strlit("lock");
    reveal_strlit("unlock");
    reveal_strlit("status");
    reveal_strlit("list_ports");
    reveal_strlit("list_devices");
    reveal_strlit("set_device");
    reveal_strlit("reconnect");
    reveal_strlit("send_break");
    reveal_strlit("set_dtr");
    reveal_strlit("set_rts");
    reveal_strlit("read_modem_status");
    reveal_strlit("disconnect_device");
    reveal_strlit("connect_device");
    // By length, and within a length by one letter.
    assert("hello"@.len() == 5 && "attach"@.len() == 6 && "detach"@.len() == 6 && "send"@.len() == 4 && "expect"@.len() == 6 && "run"@.len() == 3 && "lock"@.len() == 4 && "unlock"@.len() == 6 && "status"@.len() == 6 && "list_ports"@.len() == 10 && "list_devices"@.len() == 12 && "set_device"@.len() == 10 && "reconnect"@.len() == 9 && "send_break"@.len() == 10 && "set_dtr"@.len() == 7 && "set_rts"@.len() == 7 && "read_modem_status"@.len() == 17 && "disconnect_device"@.len() == 17 && "connect_device"@.len() == 14);
    assert("run"@.len() == 3);
    assert("send"@[0] == 's' && "lock"@[0] == 'l');
    assert("hello"@.len() == 5);
    assert("attach"@[0] == 'a' && "detach"@[0] == 'd' && "expect"@[0] == 'e' && "unlock"@[0] == 'u'
        && "status"@[0] == 's');
    assert("set_dtr"@[4] == 'd' && "set_rts"@[4] == 'r');
    assert("reconnect"@.len() == 9);
    assert("list_ports"@[0] == 'l' && "set_device"@[1] == 'e' && "send_break"@[2] == 'n'
        && "set_device"@[2] == 't' && "send_break"@[0] == 's' && "set_device"@[0] == 's');
    assert("list_devices"@.len() == 12 && "connect_device"@.len() == 14);
    assert("read_modem_status"@[0] == 'r' && "disconnect_device"@[0] == 'd');
}

/// A client is greeted if and only if it speaks version 1 of the protocol and,
/// where the transport asks for a token, has supplied the daemon's. It is told
/// of the default device.
pub proof fn law_greeting(
    state: &DaemonState,
    conn: &mut ConnState,
    p: &HelloParams,
    r: Result<HelloResult, ProtocolError>,
)
    requires
        call_ensures(hello, (state, conn, p), r),
    ensures
        r is Ok <==> p.protocol_version@ == "1"@ && (old(conn).needs_token() ==> (
        state.auth_token matches Some(t) && p.auth_token matches Some(u) && t@ == u@)),
        r is Ok ==> final(conn).greeted() && final(conn).kind() == Some(p.client.kind@),
        r is Err ==> *final(conn) == *old(conn),
        r matches Err(e) ==> e.code == (if p.protocol_version@ != "1"@ {
            -32010int
        } else {
            -32014int
        }),
        r matches Ok(h) ==> h.protocol_version@ == "1"@ && opt_view(h.device.id) == Some(
            state.default_device@,
        ),
        final(conn).owned() == old(conn).owned(),
        final(conn).needs_token() == old(conn).needs_token(),
{
}

// ---------- Sessions ----------

/// Attaching makes one new session, owned by the connection, bound to the device
/// asked for, or to the only one; it starts to read at the oldest byte kept, at
/// the next one to come, or at the number given, and may write if its mode says
/// so. All other sessions stay as they are.
pub proof fn law_attaching(
    state: &mut DaemonState,
    conn: &mut ConnState,
    p: &AttachParams,
    now_ms: u64,
    r: Result<AttachResult, ProtocolError>,
    other: Seq<char>,
    j: int,
)
    requires
        call_ensures(attach, (state, conn, p, now_ms), r),
    ensures
        r matches Ok(a) ==> {
            let s = final(state).sessions.map()[a.session_id@];
            &&& old(conn).greeted() && p.session_id is None && !a.restored
            &&& final(state).sessions.map().contains_key(a.session_id@)
            &&& final(conn).owned().contains(a.session_id@)
            &&& s.id@ == a.session_id@
            &&& s.consumer_cursor == a.cursor_seq && s.notify_cursor == a.cursor_seq
            &&& p.mode@ == "rw"@ ==> s.mode == SessionMode::Rw
            &&& p.mode@ == "ro"@ ==> s.mode == SessionMode::Ro
            &&& p.mode@ == "rw"@ || p.mode@ == "ro"@
            &&& p.flow_control@ == "drop_oldest"@ ==> s.flow_control == ReaderPolicy::DropOldest
            &&& p.flow_control@ == "disconnect"@ ==> s.flow_control == ReaderPolicy::Disconnect
            &&& p.flow_control@ == "drop_oldest"@ || p.flow_control@ == "disconnect"@
            &&& opt_view(s.label) == opt_view(p.label) && s.created_at == now_ms
            &&& p.device_id matches Some(d) ==> s.device_id@ == d@
            &&& p.device_id is None ==> old(state).devices@.len() == 1 && s.device_id@ == old(
                state).devices@[0].id@
            &&& p.replay matches ReplaySpec::FromSeq { seq } ==> a.cursor_seq == seq
            &&& 0 <= j < old(state).devices@.len() && old(state).devices@[j].id@ == s.device_id@
                && old(state).wf() ==> (p.replay matches ReplaySpec::Named(w) ==> (w@ == "start"@
                && a.cursor_seq == old(state).devices@[j].buffer.tail()) || (w@ == "now"@
                && a.cursor_seq == old(state).devices@[j].buffer.head()))
            &&& other != a.session_id@ ==> (final(state).sessions.map().contains_key(other) <==> old(
                state).sessions.map().contains_key(other))
            &&& other != a.session_id@ && old(state).sessions.map().contains_key(other)
                ==> final(state).sessions.map()[other] == old(state).sessions.map()[other]
        },
        r is Err ==> *final(state) == *old(state) && *final(conn) == *old(conn),
        r matches Err(e) ==> e.code == -32011 || e.code == -32602 || e.code == -32009 || e.code
            == -32015 || e.code == -32012,
        !old(conn).greeted() ==> (r matches Err(e) && e.code == -32011),
        old(conn).greeted() && p.session_id is None && (p.mode@ == "rw"@ || p.mode@ == "ro"@) && (
        p.flow_control@ == "drop_oldest"@ || p.flow_control@ == "disconnect"@) && p.device_id
            is None && old(state).devices@.len() == 1 && p.replay is FromSeq ==> r is Ok,
{
    reveal_strlit("rw");
    reveal_strlit("ro");
    reveal_strlit("drop_oldest");
    reveal_strlit("disconnect");
    reveal_strlit("start");
    reveal_strlit("now");
    assert("rw"@[1] == 'w' && "ro"@[1] == 'o');
    assert("drop_oldest"@.len() == 11 && "disconnect"@.len() == 10);
    assert("start"@.len() == 5 && "now"@.len() == 3);
    if let Ok(a) = r {
        let id = a.session_id@;
        let owned = old(conn).owned();
        if !owned.contains(id) {
            assert(owned.push(id)[owned.len() as int] == id);
        }
        if old(state).wf() && 0 <= j < old(state).devices@.len() {
            let d = choose|d: int|
                #![trigger old(state).devices@[d]]
                0 <= d < old(state).devices@.len() && old(state).resolves(opt_view(p.device_id), d)
                    && replay_cursor(p.replay, old(state).devices@[d]) == Some(a.cursor_seq as int)
                    && final(state).sessions.map()[id].is_new(
                    id,
                    old(state).devices@[d].id@,
                    SessionMode::of_word(p.mode@).unwrap(),
                    ReaderPolicy::of_word(p.flow_control@).unwrap(),
                    opt_view(p.label),
                    a.cursor_seq,
                    now_ms,
                );
            if old(state).devices@[j].id@ == final(state).sessions.map()[id].device_id@ {
                assert(d == j) by {
                    if d < j {
                        assert(old(state).devices@[d].id@ != old(state).devices@[j].id@);
                    } else if j < d {
                        assert(old(state).devices@[j].id@ != old(state).devices@[d].id@);
                    }
                }
            }
        }
    }
}

/// A session ends with `detach` if and only if the connection owns it; every
/// lock it held is free then, and no other session and no other lock changed.
pub proof fn law_detaching(
    state: &mut DaemonState,
    conn: &mut ConnState,
    p: &DetachParams,
    r: Result<Option<usize>, ProtocolError>,
    other: Seq<char>,
    j: int,
)
    requires
        call_ensures(detach, (state, conn, p), r),
    ensures
        r is Ok <==> old(conn).owned().contains(p.session_id@),
        r matches Err(e) ==> e.code == -32002 && *final(state) == *old(state) && *final(conn)
            == *old(conn),
        r is Ok ==> !final(state).sessions.map().contains_key(p.session_id@),
        r is Ok && other != p.session_id@ ==> (final(state).sessions.map().contains_key(other)
            <==> old(state).sessions.map().contains_key(other)),
        r is Ok && other != p.session_id@ && old(state).sessions.map().contains_key(other)
            ==> final(state).sessions.map()[other] == old(state).sessions.map()[other],
        r is Ok && 0 <= j < old(state).devices@.len() ==> (match old(state).devices@[j].lock@ {
            Some(h) => if h.0 == p.session_id@ {
                final(state).devices@[j].lock@ is None
            } else {
                final(state).devices@[j].lock@ == Some(h)
            },
            None => final(state).devices@[j].lock@ is None,
        }),
        r is Ok && 0 <= j < old(state).devices@.len() ==> final(state).devices@[j].buffer == old(
            state).devices@[j].buffer && final(state).devices@[j].config == old(
            state).devices@[j].config,
{
}

/// With its connection every session of it ends, and every lock that one of
/// them held is free; the sessions and locks of others stay.
pub proof fn law_connection_ends(
    state: &mut DaemonState,
    conn: &ConnState,
    woken: Vec<usize>,
    sid: Seq<char>,
    j: int,
)
    requires
        call_ensures(end_connection, (state, conn), woken),
        old(state).wf(),
    ensures
        final(state).sessions.map().contains_key(sid) <==> old(
            state).sessions.map().contains_key(sid) && !conn.owned().contains(sid),
        final(state).sessions.map().contains_key(sid) ==> final(state).sessions.map()[sid] == old(
            state).sessions.map()[sid],
        0 <= j < old(state).devices@.len() ==> (match old(state).devices@[j].lock@ {
            Some(h) => if conn.owned().contains(h.0) {
                final(state).devices@[j].lock@ is None && woken@.contains(j as usize)
            } else {
                final(state).devices@[j].lock@ == Some(h)
            },
            None => final(state).devices@[j].lock@ is None,
        }),
{
    if 0 <= j < old(state).devices@.len() {
        assert(lock_sound(old(state).devices@[j], old(state).sessions.map()));
        assert(same_but_lock(old(state).devices@[j], final(state).devices@[j]));
    }
}

// ---------- send ----------

/// A `send` goes to the session's own device with exactly the bytes given: those
/// that the base64 stands for, or else the text's. It needs a session that the
/// connection owns and that may write, and no other session's exclusive lock.
pub proof fn law_sending(
    state: &DaemonState,
    conn: &ConnState,
    p: &SendParams,
    r: Result<SendPlan, ProtocolError>,
    i: int,
)
    requires
        call_ensures(send, (state, conn, p), r),
        state.wf(),
    ensures
        r matches Ok(plan) ==> {
            let sid = p.session_id@;
            &&& conn.owned().contains(sid) && state.sessions.map().contains_key(sid)
            &&& state.sessions.map()[sid].mode == SessionMode::Rw
            &&& plan.device < state.devices@.len() && state.devices@[plan.device as int].id@
                == state.sessions.map()[sid].device_id@
            &&& state.devices@[plan.device as int].lock@ matches Some(h) ==> h.0 == sid || !h.1
            &&& p.data matches Some(d) ==> base64_bytes(d@) == Ok::<Seq<u8>, Seq<char>>(plan.bytes@)
            &&& p.data is None ==> (p.data_text matches Some(t) && plan.bytes@ == encode_utf8(t@))
        },
        p.data is None && p.data_text is None ==> (r matches Err(e) && e.code == -32602),
        p.data is None && p.data_text is Some && !conn.owned().contains(p.session_id@) ==> (
        r matches Err(e) && e.code == -32002),
        p.data is None && p.data_text is Some && conn.owned().contains(p.session_id@)
            && state.sessions.map().contains_key(p.session_id@)
            && state.sessions.map()[p.session_id@].mode == SessionMode::Ro ==> (r matches Err(e)
            && e.code == -32003),
        p.data is None && p.data_text is Some && conn.owned().contains(p.session_id@)
            && state.sessions.map().contains_key(p.session_id@)
            && state.sessions.map()[p.session_id@].mode == SessionMode::Rw && 0 <= i
            < state.devices@.len() && state.devices@[i].id@
            == state.sessions.map()[p.session_id@].device_id@ ==> (match state.devices@[i].lock@ {
            Some(h) => if h.1 && h.0 != p.session_id@ {
                r matches Err(e) && e.code == -32004
            } else {
                r is Ok
            },
            None => r is Ok,
        }),
{
    let sid = p.session_id@;
    if 0 <= i < state.devices@.len() && state.devices@[i].id@ == state.session_device(sid) {
        assert(is_device_at(state.devices@, state.session_device(sid), i));
        assert forall|k: int|
            #![trigger state.devices@[k]]
            is_device_at(state.devices@, state.session_device(sid), k) implies k == i by {
            if k < i {
                assert(state.devices@[k].id@ != state.devices@[i].id@);
            } else if i < k {
                assert(state.devices@[i].id@ != state.devices@[k].id@);
            }
        }
        if let Ok(plan) = r {
            assert(state.devices@[plan.device as int].id@ == state.session_device(sid));
        }
    }
}

/// A `send` is answered with what was written and where the next byte to come
/// was numbered then; with `eat_echo` the session goes on reading after as many
/// bytes, and otherwise nothing of it changes.
pub proof fn law_send_answer(
    state: &mut DaemonState,
    session_id: &str,
    eat_echo: bool,
    count: u64,
    sent_at_seq: u64,
    r: SendResult,
    other: Seq<char>,
)
    requires
        call_ensures(send_finished, (state, session_id, eat_echo, count, sent_at_seq), r),
        sent_at_seq + count <= u64::MAX,
    ensures
        r.bytes_written == count && r.sent_at_seq == sent_at_seq,
        eat_echo && old(state).sessions.map().contains_key(session_id@) ==> final(
            state).sessions.map()[session_id@].consumer_cursor == sent_at_seq + count,
        old(state).sessions.map().contains_key(session_id@) ==> final(
            state).sessions.map()[session_id@].notify_cursor == old(
            state).sessions.map()[session_id@].notify_cursor,
        !eat_echo ==> final(state).sessions.map() == old(state).sessions.map(),
        other != session_id@ && old(state).sessions.map().contains_key(other) ==> final(
            state).sessions.map()[other] == old(state).sessions.map()[other],
        final(state).devices == old(state).devices,
{
}

// ---------- Cursors and locks of run and expect ----------

/// After a match a session reads on behind it, after a timeout behind all that
/// was looked at, and after any other failure where it was.
pub proof fn law_expect_moves_the_cursor(
    state: &mut DaemonState,
    session_id: &str,
    step: &ExpectStep,
    next_seq: u64,
)
    requires
        call_ensures(expect_finished, (state, session_id, step, next_seq), ()),
        old(state).sessions.map().contains_key(session_id@),
    ensures
        ({
            let before = old(state).sessions.map()[session_id@].consumer_cursor;
            let after = final(state).sessions.map()[session_id@].consumer_cursor;
            &&& step matches ExpectStep::Matched(x) ==> after == x.end_seq
            &&& step matches ExpectStep::Failed(e) ==> (if e.code == -32001 {
                after == next_seq
            } else {
                after == before
            })
            &&& step is Wait ==> after == before
            &&& final(state).sessions.map()[session_id@].notify_cursor == old(
                state).sessions.map()[session_id@].notify_cursor
        }),
        final(state).devices == old(state).devices,
{
}

/// A `run` holds its device's lock while it lasts: it is granted if and only if
/// the lock is free or the session's own, or it is taken over by force. It sends
/// exactly its bytes to the session's own device.
pub proof fn law_run_takes_the_lock(
    state: &mut DaemonState,
    conn: &ConnState,
    p: &RunParams,
    r: Result<RunStart, ProtocolError>,
    i: int,
)
    requires
        call_ensures(run, (state, conn, p), r),
        old(state).wf(),
        0 <= i < old(state).devices@.len(),
        conn.owned().contains(p.session_id@),
        old(state).sessions.map().contains_key(p.session_id@),
        old(state).sessions.map()[p.session_id@].mode == SessionMode::Rw,
        old(state).devices@[i].id@ == old(state).sessions.map()[p.session_id@].device_id@,
        p.data is None && p.data_text is Some,
    ensures
        ({
            let sid = p.session_id@;
            let held = old(state).devices@[i].lock@;
            let after = final(state).devices@[i].lock@;
            let others = held matches Some(h) && h.0 != sid;
            &&& !others || p.preempt@ == "force"@ ==> (r matches Ok(RunStart::Granted(plan))
                && plan.device == i && plan.bytes@ == encode_utf8(p.data_text->Some_0@)
                && after is Some && after->Some_0.0 == sid && (plan.seized_from is Some <==> others))
            &&& others && p.preempt@ == "force"@ ==> after == Some((sid, false)) && opt_view(
                r->Ok_0->Granted_0.seized_from,
            ) == Some(held->Some_0.0)
            &&& held is None ==> after == Some((sid, false))
            &&& held == Some((sid, true)) ==> after == held
            &&& others && p.preempt@ == "fail"@ ==> (r matches Err(e) && e.code == -32004) && after
                == held
            &&& others && p.preempt@ != "fail"@ && p.preempt@ != "force"@ ==> r == Ok::<
                RunStart,
                ProtocolError,
            >(RunStart::Wait(i as usize)) && after == held
        }),
        final(state).sessions == old(state).sessions,
{
    let sid = p.session_id@;
    assert(is_device_at(old(state).devices@, old(state).session_device(sid), i));
    assert forall|k: int|
        #![trigger is_reachable(old(state), conn, sid, true, k)]
        is_reachable(old(state), conn, sid, true, k) implies k == i by {
        if k < i {
            assert(old(state).devices@[k].id@ != old(state).devices@[i].id@);
        } else if i < k {
            assert(old(state).devices@[i].id@ != old(state).devices@[k].id@);
        }
    }
    reveal_strlit("fail");
    reveal_strlit("force");
    assert("fail"@.len() == 4 && "force"@.len() == 5);
    if let Err(e) = r {
        if is_contention(*old(state), *final(state), conn, sid, p.preempt@, e) {
            let k = choose|k: int|
                #[trigger] contends_on(*old(state), *final(state), conn, sid, p.preempt@, k);
            assert(is_reachable(old(state), conn, sid, true, k));
        }
    }
}

/// However a `run` ends, its transient hold ends with it and an exclusive one
/// does not; a match moves the session's cursor behind it.
pub proof fn law_run_gives_the_lock_back(
    state: &mut DaemonState,
    device: usize,
    session_id: &str,
    end_seq: Option<u64>,
    wake: bool,
)
    requires
        call_ensures(run_finished, (state, device, session_id, end_seq), wake),
        device < old(state).devices@.len(),
    ensures
        ({
            let held = old(state).devices@[device as int].lock@;
            let after = final(state).devices@[device as int].lock@;
            &&& held == Some((session_id@, false)) ==> after is None && wake
            &&& held != Some((session_id@, false)) ==> after == held && !wake
        }),
        old(state).sessions.map().contains_key(session_id@) ==> final(
            state).sessions.map()[session_id@].consumer_cursor == (match end_seq {
            Some(n) => n,
            None => old(state).sessions.map()[session_id@].consumer_cursor,
        }),
{
}

/// An explicit lock is exclusive and lasts until it is given back; only the
/// holder can give it back, and giving back a free lock changes nothing.
pub proof fn law_locking(
    l: &mut WriterLock,
    session_id: &str,
    preempt: &str,
    exclusive: bool,
    r: Result<LockAttempt, ProtocolError>,
)
    requires
        call_ensures(acquire_lock, (l, session_id, preempt, exclusive), r),
    ensures
        ({
            let sid = session_id@;
            let others = old(l)@ matches Some(h) && h.0 != sid;
            &&& old(l)@ is None ==> final(l)@ == Some((sid, exclusive)) && r == Ok::<
                LockAttempt,
                ProtocolError,
            >(LockAttempt::Granted)
            &&& old(l)@ matches Some(h) ==> h.0 == sid ==> final(l)@ == Some((sid, h.1 || exclusive))
                && r == Ok::<LockAttempt, ProtocolError>(LockAttempt::Granted)
            &&& others && preempt@ == "force"@ ==> final(l)@ == Some((sid, exclusive)) && r == Ok::<
                LockAttempt,
                ProtocolError,
            >(LockAttempt::Granted)
            &&& others && preempt@ == "fail"@ ==> final(l)@ == old(l)@ && (r matches Err(e) && e.code
                == -32004)
            &&& others && preempt@ != "force"@ && preempt@ != "fail"@ ==> final(l)@ == old(l)@ && r
                == Ok::<LockAttempt, ProtocolError>(LockAttempt::Wait)
        }),
{
    reveal_strlit("fail");
    reveal_strlit("force");
    assert("fail"@.len() == 4 && "force"@.len() == 5);
}

/// Giving a lock back frees the holder's own and nobody else's; a transaction's
/// end leaves an exclusive hold alone.
pub proof fn law_unlocking(
    l: &mut WriterLock,
    session_id: &str,
    r: Result<bool, ProtocolError>,
)
    requires
        call_ensures(release_lock_if_holder, (l, session_id), r),
    ensures
        old(l)@ is None ==> r == Ok::<bool, ProtocolError>(false) && final(l)@ is None,
        old(l)@ matches Some(h) ==> h.0 == session_id@ ==> r == Ok::<bool, ProtocolError>(true)
            && final(l)@ is None,
        old(l)@ matches Some(h) ==> h.0 != session_id@ ==> (r matches Err(e) && e.code == -32004)
            && final(l)@ == old(l)@,
{
}

/// The end of a transaction frees its own transient hold and nothing else.
pub proof fn law_transaction_end(l: &mut WriterLock, session_id: &str, wake: bool)
    requires
        call_ensures(release_transient_hold, (l, session_id), wake),
    ensures
        wake <==> old(l)@ == Some((session_id@, false)),
        wake ==> final(l)@ is None,
        !wake ==> final(l)@ == old(l)@,
{
}

/// A plain write is refused if and only if another session holds exclusively.
pub proof fn law_exclusive_lock_refuses_writes(
    l: &WriterLock,
    session_id: &str,
    r: Result<(), ProtocolError>,
)
    requires
        call_ensures(reject_if_exclusively_locked, (l, session_id), r),
    ensures
        r is Err <==> (l@ matches Some(h) && h.1 && h.0 != session_id@),
        r matches Err(e) ==> e.code == -32004,
{
}

/// A `lock` request of a session that may write takes its own device's lock
/// exclusively, by the same rules as a `run` takes it; one that names another
/// device than the session's is refused.
pub proof fn law_lock_request(
    state: &mut DaemonState,
    conn: &ConnState,
    p: &LockParams,
    r: Result<LockStart, ProtocolError>,
    i: int,
)
    requires
        call_ensures(lock, (state, conn, p), r),
        old(state).wf(),
        0 <= i < old(state).devices@.len(),
        conn.owned().contains(p.session_id@),
        old(state).sessions.map().contains_key(p.session_id@),
        old(state).sessions.map()[p.session_id@].mode == SessionMode::Rw,
        old(state).devices@[i].id@ == old(state).sessions.map()[p.session_id@].device_id@,
    ensures
        ({
            let sid = p.session_id@;
            let held = old(state).devices@[i].lock@;
            let after = final(state).devices@[i].lock@;
            let others = held matches Some(h) && h.0 != sid;
            let other_device = p.device_id matches Some(d) && d@ != old(state).devices@[i].id@;
            &&& other_device ==> (r matches Err(e) && e.code == -32009) && after == held
            &&& !other_device && (!others || p.preempt@ == "force"@) ==> (r matches Ok(
                LockStart::Granted(from),
            ) && after == Some((sid, true)) && (from is Some <==> others))
            &&& !other_device && others && p.preempt@ == "fail"@ ==> (r matches Err(e) && e.code
                == -32004) && after == held
            &&& !other_device && others && p.preempt@ != "fail"@ && p.preempt@ != "force"@ ==> r
                == Ok::<LockStart, ProtocolError>(LockStart::Wait(i as usize)) && after == held
        }),
        final(state).sessions == old(state).sessions,
{
    let sid = p.session_id@;
    assert(is_device_at(old(state).devices@, old(state).session_device(sid), i));
    assert forall|k: int|
        #![trigger is_reachable(old(state), conn, sid, true, k)]
        is_reachable(old(state), conn, sid, true, k) implies k == i by {
        if k < i {
            assert(old(state).devices@[k].id@ != old(state).devices@[i].id@);
        } else if i < k {
            assert(old(state).devices@[i].id@ != old(state).devices@[k].id@);
        }
    }
    reveal_strlit("fail");
    reveal_strlit("force");
    assert("fail"@.len() == 4 && "force"@.len() == 5);
    if let Err(e) = r {
        if is_contention(*old(state), *final(state), conn, sid, p.preempt@, e) {
            let k = choose|k: int|
                #[trigger] contends_on(*old(state), *final(state), conn, sid, p.preempt@, k);
            assert(is_reachable(old(state), conn, sid, true, k));
        }
    }
}

/// An `unlock` request frees the session's own device if the session holds its
/// lock or nobody does, and is refused if another session holds it or another
/// device is named.
pub proof fn law_unlock_request(
    state: &mut DaemonState,
    conn: &ConnState,
    p: &UnlockParams,
    r: Result<Option<usize>, ProtocolError>,
    i: int,
)
    requires
        call_ensures(unlock, (state, conn, p), r),
        old(state).wf(),
        0 <= i < old(state).devices@.len(),
        conn.owned().contains(p.session_id@),
        old(state).sessions.map().contains_key(p.session_id@),
        old(state).sessions.map()[p.session_id@].mode == SessionMode::Rw,
        old(state).devices@[i].id@ == old(state).sessions.map()[p.session_id@].device_id@,
    ensures
        ({
            let held = old(state).devices@[i].lock@;
            let others = held matches Some(h) && h.0 != p.session_id@;
            let other_device = p.device_id matches Some(d) && d@ != old(state).devices@[i].id@;
            &&& r is Ok <==> !others && !other_device
            &&& r is Ok ==> final(state).devices@[i].lock@ is None
            &&& r is Ok ==> r->Ok_0 == (if held is Some {
                Some(i as usize)
            } else {
                None
            })
            &&& r matches Err(e) ==> e.code == (if other_device {
                -32009int
            } else {
                -32004int
            })
        }),
        final(state).sessions == old(state).sessions,
{
    let sid = p.session_id@;
    assert(is_device_at(old(state).devices@, old(state).session_device(sid), i));
    assert(is_reachable(old(state), conn, sid, true, i));
    assert forall|k: int|
        #![trigger is_reachable(old(state), conn, sid, true, k)]
        is_reachable(old(state), conn, sid, true, k) implies k == i by {
        if k < i {
            assert(old(state).devices@[k].id@ != old(state).devices@[i].id@);
        } else if i < k {
            assert(old(state).devices@[i].id@ != old(state).devices@[k].id@);
        }
    }
}

/// A `run` is interrupted by a lost device, and by force only if it was its own
/// session that lost the lock.
pub proof fn law_run_interrupted(
    session_id: &str,
    seized: &Vec<String>,
    dropped: bool,
    i: Interrupt,
    k: int,
)
    requires
        call_ensures(run_interrupt, (session_id, seized, dropped), i),
    ensures
        dropped ==> i == Interrupt::DeviceDropped,
        !dropped && seized@.len() == 0 ==> i == Interrupt::Nothing,
        !dropped && 0 <= k < seized@.len() && seized@[k]@ == session_id@ ==> i
            == Interrupt::LockSeized,
        !dropped && (forall|j: int| 0 <= j < seized@.len() ==> (#[trigger] seized@[j])@
            != session_id@) ==> i == Interrupt::Nothing,
{
    let v = views(seized@);
    assert(v.len() == seized@.len());
    if 0 <= k < seized@.len() {
        assert(v[k] == seized@[k]@);
    }
    if v.contains(session_id@) {
        let j = choose|j: int| 0 <= j < v.len() && v[j] == session_id@;
        assert(seized@[j]@ == session_id@);
    }
}

/// A pattern that is no regular expression is refused before anything is waited
/// for; any other starts a wait.
pub proof fn law_bad_patterns_are_refused(
    p: &RunParams,
    sent: &[u8],
    seq: u64,
    r: Result<ExpectState, ProtocolError>,
)
    requires
        call_ensures(run_watch, (p, sent, seq), r),
    ensures
        r is Err <==> p.until.regex && regex_error(p.until.pattern@) is Some,
        r matches Err(e) ==> e.code == -32602,
{
}

/// A wait keeps all that it took and adds what the ring can still give: the
/// stream from where it stopped, or from the oldest byte kept where some were
/// dropped meanwhile. It reads on from the ring's end.
pub proof fn law_wait_keeps_what_it_took(
    s: &mut ExpectState,
    ring: &RingBuffer,
    elapsed_ms: u64,
    interrupt: Interrupt,
    step: ExpectStep,
)
    requires
        call_ensures(ExpectState::step, (s, ring, elapsed_ms, interrupt), step),
        ring.head() <= u64::MAX,
    ensures
        ({
            let next = old(s).next_seq() as int;
            let head = ring.head() as int;
            let tail = ring.tail() as int;
            &&& next >= head ==> final(s).bytes() == old(s).bytes() && final(s).next_seq() == next
            &&& tail <= next <= head ==> final(s).bytes() == old(s).bytes()
                + ring.stream().subrange(next, head) && final(s).next_seq() == head
            &&& next < tail ==> final(s).bytes() == old(s).bytes() + ring.stream().subrange(
                tail,
                head,
            ) && final(s).next_seq() == head
            &&& final(s).req() == old(s).req()
        }),
{
    let next = old(s).next_seq() as int;
    let head = ring.head() as int;
    let none = Seq::<u8>::empty();
    assert(old(s).bytes() + none =~= old(s).bytes());
    if next == head {
        assert(ring.stream().subrange(next, head) =~= none);
    }
    if next < ring.tail() && ring.tail() == head {
        assert(ring.kept() =~= none);
    }
}

/// What a client is told of a request that cannot be served.
pub proof fn law_refusal_messages(
    conn: &ConnState,
    method: &str,
    r: Result<Method, ProtocolError>,
    state: &DaemonState,
    conn2: &mut ConnState,
    p: &HelloParams,
    h: Result<HelloResult, ProtocolError>,
)
    requires
        call_ensures(dispatch, (conn, method), r),
        call_ensures(hello, (state, conn2, p), h),
    ensures
        r matches Err(e) ==> e.code == -32601 ==> e.message@ == "method not found: "@ + method@,
        h matches Err(e) ==> e.code == -32010 ==> e.message@ == "server supports "@ + "1"@
            + ", got "@ + p.protocol_version@,
        h matches Err(e) ==> e.code == -32014 ==> e.message@
            == "auth token missing or incorrect"@,
{
}

/// What was wrong with an `attach` is named.
pub proof fn law_attach_refusals(
    state: &DaemonState,
    conn: &ConnState,
    p: &AttachParams,
    r: Result<AttachPlan, ProtocolError>,
)
    requires
        call_ensures(attach_plan, (state, conn, p), r),
        conn.greeted(),
    ensures
        p.mode@ != "rw"@ && p.mode@ != "ro"@ ==> (r matches Err(e) && e.code == -32602 && e.message@
            == "bad mode: "@ + p.mode@),
        (p.mode@ == "rw"@ || p.mode@ == "ro"@) && p.flow_control@ != "drop_oldest"@
            && p.flow_control@ != "disconnect"@ ==> (r matches Err(e) && e.code == -32602
            && e.message@ == "bad flow_control: "@ + p.flow_control@),
        p.session_id is Some ==> r is Err,
        p.replay matches ReplaySpec::Named(w) ==> (w@ != "start"@ && w@ != "now"@) ==> r is Err,
        p.device_id is None && state.devices@.len() != 1 ==> r is Err,
        r matches Ok(plan) ==> plan.device < state.devices@.len() && (p.device_id matches Some(d)
            ==> state.devices@[plan.device as int].id@ == d@),
{
    reveal_strlit("rw");
    reveal_strlit("ro");
    reveal_strlit("drop_oldest");
    reveal_strlit("disconnect");
    assert("rw"@[1] == 'w' && "ro"@[1] == 'o');
    assert("drop_oldest"@.len() == 11 && "disconnect"@.len() == 10);
}

/// Whatever writes or locks needs a session of this connection that exists and
/// may write; `expect` needs one that exists, no more.
pub proof fn law_sessions_are_checked(
    state: &mut DaemonState,
    conn: &ConnState,
    p: &RunParams,
    r: Result<RunStart, ProtocolError>,
    q: &ExpectParams,
    x: Result<(usize, ExpectState), ProtocolError>,
    i: int,
)
    requires
        call_ensures(run, (state, conn, p), r),
        call_ensures(expect, (old(state), conn, q), x),
        q.session_id@ == p.session_id@,
        p.data is None && p.data_text is Some,
        !q.regex,
        old(state).wf(),
    ensures
        ({
            let sid = p.session_id@;
            let sessions = old(state).sessions.map();
            &&& !conn.owned().contains(sid) ==> (r matches Err(e) && e.code == -32002) && (
            x matches Err(e) && e.code == -32002)
            &&& conn.owned().contains(sid) && !sessions.contains_key(sid) ==> (r matches Err(e)
                && e.code == -32012) && (x matches Err(e) && e.code == -32012)
            &&& conn.owned().contains(sid) && sessions.contains_key(sid) && sessions[sid].mode
                == SessionMode::Ro ==> (r matches Err(e) && e.code == -32003)
            &&& conn.owned().contains(sid) && sessions.contains_key(sid) && 0 <= i < old(
                state).devices@.len() && old(state).devices@[i].id@ == sessions[sid].device_id@
                ==> x is Ok && x->Ok_0.0 == i
        }),
        r is Err ==> final(state).sessions == old(state).sessions,
{
    let sid = p.session_id@;
    let d = old(state).session_device(sid);
    if 0 <= i < old(state).devices@.len() && old(state).devices@[i].id@ == d {
        assert(is_device_at(old(state).devices@, d, i));
        if conn.owned().contains(sid) && old(state).sessions.map().contains_key(sid) {
            assert(is_reachable(old(state), conn, sid, false, i));
        }
        assert forall|k: int|
            #![trigger old(state).devices@[k]]
            is_device_at(old(state).devices@, d, k) implies k == i by {
            if k < i {
                assert(old(state).devices@[k].id@ != old(state).devices@[i].id@);
            } else if i < k {
                assert(old(state).devices@[i].id@ != old(state).devices@[k].id@);
            }
        }
        if let Ok(y) = x {
            assert(old(state).devices@[y.0 as int].id@ == d);
        }
    }
}

/// The same holds of `lock` and `unlock`.
pub proof fn law_locking_sessions_are_checked(
    state: &mut DaemonState,
    conn: &ConnState,
    p: &LockParams,
    r: Result<LockStart, ProtocolError>,
)
    requires
        call_ensures(lock, (state, conn, p), r),
    ensures
        ({
            let sid = p.session_id@;
            let sessions = old(state).sessions.map();
            &&& !conn.owned().contains(sid) ==> (r matches Err(e) && e.code == -32002)
            &&& conn.owned().contains(sid) && !sessions.contains_key(sid) ==> (r matches Err(e)
                && e.code == -32012)
            &&& conn.owned().contains(sid) && sessions.contains_key(sid) && sessions[sid].mode
                == SessionMode::Ro ==> (r matches Err(e) && e.code == -32003)
        }),
{
    if let Err(e) = r {
        if is_contention(*old(state), *final(state), conn, p.session_id@, p.preempt@, e) {
            let k = choose|k: int| #[trigger]
                contends_on(*old(state), *final(state), conn, p.session_id@, p.preempt@, k);
            assert(is_reachable(old(state), conn, p.session_id@, true, k));
        }
    }
}

/// The session to unlock is checked first.
pub proof fn law_unlocking_sessions_are_checked(
    state: &mut DaemonState,
    conn: &ConnState,
    p: &UnlockParams,
    r: Result<Option<usize>, ProtocolError>,
)
    requires
        call_ensures(unlock, (state, conn, p), r),
    ensures
        !conn.owned().contains(p.session_id@) ==> (r matches Err(e) && e.code == -32002),
        conn.owned().contains(p.session_id@) && old(state).sessions.map().contains_key(
            p.session_id@,
        ) && old(state).sessions.map()[p.session_id@].mode == SessionMode::Ro ==> (r matches Err(e)
            && e.code == -32003),
{
}

/// A `run` sends what its base64 stands for, where it is given so, and is
/// refused where that is none or nothing is given.
pub proof fn law_run_sends_its_bytes(
    state: &mut DaemonState,
    conn: &ConnState,
    p: &RunParams,
    r: Result<RunStart, ProtocolError>,
    bytes: Seq<u8>,
)
    requires
        call_ensures(run, (state, conn, p), r),
    ensures
        r matches Ok(RunStart::Granted(plan)) ==> (p.data matches Some(d) ==> base64_bytes(d@)
            == Ok::<Seq<u8>, Seq<char>>(plan.bytes@)),
        r matches Ok(RunStart::Granted(plan)) ==> p.data is None ==> p.data_text is Some
            && plan.bytes@ == encode_utf8(p.data_text->Some_0@),
        p.data is None && p.data_text is None ==> (r matches Err(e) && e.code == -32602),
        (p.data matches Some(d) && base64_bytes(d@) is Err) ==> (r matches Err(e) && e.code
            == -32602),
{
}

/// A session is greeted with where its device's buffer stands.
pub proof fn law_greeting_shows_the_buffer(
    state: &DaemonState,
    conn: &mut ConnState,
    p: &HelloParams,
    h: HelloResult,
    i: int,
)
    requires
        call_ensures(hello, (state, conn, p), Ok::<HelloResult, ProtocolError>(h)),
        state.wf(),
        0 <= i < state.devices@.len(),
        state.devices@[i].id@ == state.default_device@,
    ensures
        h.buffer.head_seq == state.devices@[i].buffer.head(),
        h.buffer.tail_seq == state.devices@[i].buffer.tail(),
        h.buffer.capacity_bytes == state.devices@[i].buffer.limit(),
        h.device.path@ == state.devices@[i].config.path@,
        h.device.connected == state.devices@[i].state.connected,
{
    assert forall|d: int|
        #![trigger state.devices@[d]]
        is_device_at(state.devices@, state.default_device@, d) implies d == i by {
        if d < i {
            assert(state.devices@[d].id@ != state.devices@[i].id@);
        } else if i < d {
            assert(state.devices@[i].id@ != state.devices@[d].id@);
        }
    }
}

} // verus!
