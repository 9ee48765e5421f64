//! What the daemon promises about devices and the bytes they send.

use vstd::prelude::*;
use vstd::string::*;

use crate::bridge::{device_bytes, tool_bytes, DropCounter, ToolBytes};
use crate::buffer::{LagInfo, RingBuffer};
use crate::conn::{device_notify, fan_out, FanOut};
use crate::control::{
    connect_device, connect_finished, disconnect_device, line_finished, list_devices, list_ports,
    port_info, read_modem_status, reconnect, reconnect_result, send_break, set_device,
    set_device_finished, set_dtr, set_rts, status, summarises, summarize_config, FoundKind,
    FoundPort, ReconnectWait,
};
use crate::encoding::carries;
use crate::error::{ErrorCode, ProtocolError};
use crate::handlers::{describe, writer_error_to_proto};
use crate::lock::WriterLock;
use crate::message::{
    AckResult, ConnectDeviceResult, DeviceInfo, DeviceNotify, DeviceTarget, ListDevicesResult,
    ListPortsResult, PortInfo, ReconnectParams, ReconnectResult, SendBreakParams, SetDeviceParams,
    SetDeviceResult, SetLineParams, StatusResult,
};
use crate::serial::{
    ControlMsg, FaultKind, FlowControl, IoFault, Parity, SerialConfig, SerialSettings,
};
use crate::session::{FlowControl as ReaderPolicy, SessionMode};
use crate::state::{is_device_at, DaemonState, Device, DeviceEvent, DeviceEventKind};
use crate::text::{decimal, lex_le, opt_view, quoted_text};

verus! {

// ---------- Bytes from the device ----------

/// A read gives the stream from the cursor on, as far as it is kept, and says
/// exactly what is missing; the returned cursor has nothing to read until more
/// arrives.
pub proof fn law_reading(
    ring: &RingBuffer,
    from: u64,
    read: (Vec<u8>, u64, Option<LagInfo>),
    again: (Vec<u8>, u64, Option<LagInfo>),
)
    requires
        ring.head() <= u64::MAX,
        call_ensures(RingBuffer::read_from, (ring, from), read),
        call_ensures(RingBuffer::read_from, (ring, read.1), again),
    ensures
        again.0@.len() == 0 && again.1 == read.1 && again.2 is None,
        from >= ring.head() ==> read.0@.len() == 0 && read.1 == from && read.2 is None,
        from < ring.head() ==> read.1 == ring.head(),
        from <= ring.head() && ring.head() - from <= ring.limit() ==> read.0@
            == ring.stream().skip(from as int) && read.2 is None,
        from < ring.head() && ring.head() - from > ring.limit() ==> {
            let kept = ring.stream().skip(ring.head() - ring.limit());
            &&& read.0@ == kept
            &&& read.2 matches Some(lag) && lag.dropped_range.0 == from && lag.dropped_range.1
                == ring.head() - ring.limit() && lag.resume_seq == ring.head() - ring.limit()
                && lag.dropped_bytes == ring.head() - ring.limit() - from
        },
{
    let head = ring.head() as int;
    if from < head {
        if head - from <= ring.limit() {
            assert(ring.readable(from as int) =~= ring.stream().skip(from as int));
        } else {
            assert(ring.readable(from as int) =~= ring.stream().skip(head - ring.limit()));
        }
    } else if from == head {
        assert(ring.stream().skip(from as int) =~= Seq::empty());
    }
}

/// Pushed bytes are appended, in their order, and readers are woken if there
/// are any.
pub proof fn law_pushing(ring: &mut RingBuffer, bytes: &[u8], wake: bool)
    requires
        call_ensures(RingBuffer::push, (ring, bytes), wake),
    ensures
        final(ring).stream() == old(ring).stream() + bytes@,
        final(ring).limit() == old(ring).limit(),
        wake <==> bytes@.len() > 0,
{
}

/// A session is told of all bytes of its own device that it was not told of,
/// numbered by the first of them, and hears of none twice; if it fell behind it
/// is told what it missed, under the policy that drops the oldest. Only its
/// notification cursor moves.
pub proof fn law_notifying(
    state: &mut DaemonState,
    session_id: &str,
    dev: usize,
    r: Option<FanOut>,
    other: Seq<char>,
)
    requires
        call_ensures(fan_out, (state, session_id, dev), r),
        dev < old(state).devices@.len(),
        old(state).devices@[dev as int].buffer.head() <= u64::MAX,
    ensures
        ({
            let sid = session_id@;
            let sessions = old(state).sessions.map();
            let after = final(state).sessions.map();
            let ring = old(state).devices@[dev as int].buffer;
            let dev_id = old(state).devices@[dev as int].id@;
            let mine = sessions.contains_key(sid) && sessions[sid].device_id@ == dev_id;
            let cursor = sessions[sid].notify_cursor;
            &&& r is Some <==> mine
            &&& !mine ==> after == sessions
            &&& mine ==> after[sid].consumer_cursor == sessions[sid].consumer_cursor
            &&& mine && cursor <= ring.head() ==> after[sid].notify_cursor == ring.head()
            &&& mine && cursor > ring.head() ==> after[sid].notify_cursor == cursor
            &&& mine && cursor < ring.head() && ring.head() - cursor <= ring.limit() ==> {
                &&& r->Some_0.lag is None
                &&& r->Some_0.data matches Some(n) && n.session_id@ == sid && opt_view(n.device_id)
                    == Some(dev_id) && n.seq == cursor && carries(
                    n.data@,
                    ring.stream().skip(cursor as int),
                )
            }
            &&& mine && cursor >= ring.head() ==> r->Some_0.data is None && r->Some_0.lag is None
            &&& mine && cursor < ring.head() && ring.head() - cursor > ring.limit() && ring.limit()
                > 0 ==> {
                &&& r->Some_0.data matches Some(n) && n.seq == ring.head() - ring.limit() && carries(
                    n.data@,
                    ring.stream().skip(ring.head() - ring.limit()),
                )
                &&& sessions[sid].flow_control == ReaderPolicy::Disconnect ==> r->Some_0.lag is None
                &&& sessions[sid].flow_control == ReaderPolicy::DropOldest ==> (
                r->Some_0.lag matches Some(l) && l.session_id@ == sid && l.dropped_bytes
                    == ring.head() - ring.limit() - cursor && l.resume_seq == ring.head()
                    - ring.limit() && l.dropped_range@ == seq![
                    cursor,
                    (ring.head() - ring.limit()) as u64,
                ])
            }
            &&& other != sid && sessions.contains_key(other) ==> after[other] == sessions[other]
        }),
        final(state).devices == old(state).devices,
{
    let ring = old(state).devices@[dev as int].buffer;
    let sid = session_id@;
    let sessions = old(state).sessions.map();
    if r is Some {
        let cursor = sessions[sid].notify_cursor;
        if cursor < ring.head() {
            if ring.head() - cursor <= ring.limit() {
                assert(ring.readable(cursor as int) =~= ring.stream().skip(cursor as int));
            } else {
                assert(ring.readable(cursor as int) =~= ring.stream().skip(
                    ring.head() - ring.limit(),
                ));
            }
        }
    }
}

/// Every connection hears of a device's events, by the device's id.
pub proof fn law_device_events(event: &DeviceEvent, device_id: &str, n: DeviceNotify)
    requires
        call_ensures(device_notify, (event, device_id), n),
    ensures
        event.kind == DeviceEventKind::Disconnected ==> n.kind@ == "disconnected"@,
        event.kind == DeviceEventKind::Reconnected ==> n.kind@ == "reconnected"@,
        event.kind == DeviceEventKind::ConfigChanged ==> n.kind@ == "config_changed"@,
        opt_view(n.detail) == opt_view(event.detail),
        opt_view(n.device_id) == Some(device_id@),
{
}

/// A tool's bytes reach the device unless a session holds it exclusively; then
/// they are dropped and counted, and the operator hears of the total at most
/// every five seconds.
pub proof fn law_bridge_to_the_device(
    counter: &mut DropCounter,
    l: &WriterLock,
    n: u64,
    now_ms: u64,
    d: ToolBytes,
)
    requires
        call_ensures(tool_bytes, (counter, l, n, now_ms), d),
    ensures
        ({
            let exclusive = l@ matches Some(h) && h.1;
            &&& n == 0 ==> d == ToolBytes::Idle && *final(counter) == *old(counter)
            &&& n > 0 && !exclusive ==> d == ToolBytes::Forward && *final(counter) == *old(counter)
            &&& n > 0 && exclusive && old(counter).dropped_bytes + n <= u64::MAX ==> {
                let total = (old(counter).dropped_bytes + n) as u64;
                &&& final(counter).dropped_bytes == total
                &&& old(counter).last_warn is None ==> d == ToolBytes::Dropped(Some(total))
                    && final(counter).last_warn == Some(now_ms)
                &&& old(counter).last_warn matches Some(t) ==> if now_ms >= t + 5000 {
                    d == ToolBytes::Dropped(Some(total)) && final(counter).last_warn == Some(now_ms)
                } else {
                    d == ToolBytes::Dropped(None) && final(counter).last_warn == Some(t)
                }
            }
        }),
{
}

/// The device's bytes reach the tool once and in order.
pub proof fn law_bridge_to_the_tool(ring: &RingBuffer, cursor: &mut u64, chunk: Vec<u8>)
    requires
        call_ensures(device_bytes, (ring, cursor), chunk),
        ring.head() <= u64::MAX,
        ring.tail() <= *old(cursor) <= ring.head(),
    ensures
        chunk@ == ring.stream().skip(*old(cursor) as int),
        *final(cursor) == *old(cursor) + chunk@.len(),
{
    let c = *old(cursor) as int;
    assert(ring.readable(c) =~= ring.stream().skip(c));
}

// ---------- What is told about devices ----------

/// A description shows the device as it is, each setting under its own name.
pub proof fn law_description(device: &Device, info: DeviceInfo)
    requires
        call_ensures(describe, (device,), info),
    ensures
        opt_view(info.id) == Some(device.id@) && info.path@ == device.config.path@,
        info.baud == device.config.baud,
        info.data_bits == device.config.data_bits.count(),
        info.stop_bits == device.config.stop_bits.count(),
        Parity::of_word(info.parity@) == Some(device.config.parity),
        FlowControl::of_word(info.flow_control@) == Some(device.config.flow_control),
        info.connected == device.state.connected,
        info.shell@ == device.console.shell@,
        opt_view(info.prompt) == opt_view(device.console.prompt),
        opt_view(info.newline) == opt_view(device.console.newline),
{
    crate::serial::law_names_round_trip(device.config.parity, device.config.flow_control);
}

/// A status has a row for each device in order, with its own buffer, lock and
/// sessions, and shows the default device at the top.
pub proof fn law_status(state: &DaemonState, r: StatusResult, i: int, k: int)
    requires
        call_ensures(status, (state,), r),
        state.wf(),
        0 <= i < state.devices@.len(),
        0 <= k < r.devices@[i].sessions@.len(),
    ensures
        r.devices@.len() == state.devices@.len(),
        ({
            let row = r.devices@[i];
            let dev = state.devices@[i];
            let shown = row.sessions@[k];
            let own = state.sessions.ids_for_device(dev.id@);
            let s = state.sessions.map()[own[k]];
            &&& row.id@ == dev.id@ && row.device.path@ == dev.config.path@
            &&& row.buffer.head_seq == dev.buffer.head() && row.buffer.tail_seq == dev.buffer.tail()
                && row.buffer.capacity_bytes == dev.buffer.limit()
            &&& match dev.lock@ {
                Some(h) => opt_view(row.lock.holder_session_id) == Some(h.0),
                None => row.lock.holder_session_id is None,
            }
            &&& row.explicitly_disconnected == dev.state.explicitly_disconnected
            &&& row.sessions@.len() == own.len()
            &&& shown.id@ == s.id@ && shown.cursor_seq == s.consumer_cursor
            &&& opt_view(shown.label) == opt_view(s.label)
            &&& s.mode == SessionMode::Rw ==> shown.mode@ == "rw"@
            &&& s.mode == SessionMode::Ro ==> shown.mode@ == "ro"@
            &&& s.notify_cursor <= dev.buffer.head() ==> shown.lag_bytes == dev.buffer.head()
                - s.notify_cursor
            &&& s.notify_cursor > dev.buffer.head() ==> shown.lag_bytes == 0
        }),
        opt_view(r.default_device) == Some(state.default_device@),
        opt_view(r.device.id) == Some(state.default_device@),
        r.sessions@.len() == state.sessions.ids_for_device(state.default_device@).len(),
        state.devices@[i].id@ == state.default_device@ ==> r.buffer.head_seq
            == state.devices@[i].buffer.head() && opt_view(r.lock.holder_session_id) == (
        match state.devices@[i].lock@ {
            Some(h) => Some(h.0),
            None => None,
        }),
{
    if state.devices@[i].id@ == state.default_device@ {
        assert forall|d: int|
            #![trigger state.devices@[d]]
            is_device_at(state.devices@, state.default_device@, d) implies d == i by {
            if d < i {
                assert(state.devices@[d].id@ != state.devices@[i].id@);
            } else if i < d {
                assert(state.devices@[i].id@ != state.devices@[d].id@);
            }
        }
    }
}

/// A listing has each device once: every row is a device and every device has a
/// row; the default comes first and the rest follow by id.
pub proof fn law_listing(state: &DaemonState, r: ListDevicesResult, i: int, j: int)
    requires
        call_ensures(list_devices, (state,), r),
        state.wf(),
    ensures
        r.default_device@ == state.default_device@,
        r.devices@.len() == state.devices@.len(),
        r.devices@.len() > 0 && r.devices@[0].id@ == state.default_device@,
        0 < i < j < r.devices@.len() ==> lex_le(r.devices@[i].id@, r.devices@[j].id@),
        0 <= i < r.devices@.len() ==> exists|d: int|
            #![trigger state.devices@[d]]
            0 <= d < state.devices@.len() && r.devices@[i].id@ == state.devices@[d].id@
                && r.devices@[i].path@ == state.devices@[d].config.path@ && r.devices@[i].baud
                == state.devices@[d].config.baud && r.devices@[i].connected
                == state.devices@[d].state.connected && r.devices@[i].explicitly_disconnected
                == state.devices@[d].state.explicitly_disconnected && r.devices@[i].shell@
                == state.devices@[d].console.shell@ && opt_view(r.devices@[i].prompt) == opt_view(
                state.devices@[d].console.prompt,
            ) && opt_view(r.devices@[i].newline) == opt_view(state.devices@[d].console.newline)
                && r.devices@[i].data_bits == state.devices@[d].config.data_bits.count()
                && r.devices@[i].stop_bits == state.devices@[d].config.stop_bits.count()
                && r.devices@[i].parity@ == state.devices@[d].config.parity.name()
                && r.devices@[i].flow_control@ == state.devices@[d].config.flow_control.name(),
        0 <= i < j < r.devices@.len() ==> r.devices@[i].id@ != r.devices@[j].id@,
{
    let order = choose|order: Seq<int>|
        #[trigger] summarises(r.devices@, state.devices@, state.devices@.len() as int, order);
    crate::control::law_default_listed_first(
        r.devices@,
        state.devices@,
        state.default_device@,
        order,
    );
    if 0 <= i < r.devices@.len() {
        let d = order[i];
        assert(0 <= d < state.devices@.len());
        if i < j < r.devices@.len() {
            let e = order[j];
            assert(d != e);
            if d < e {
                assert(state.devices@[d].id@ != state.devices@[e].id@);
            } else {
                assert(state.devices@[e].id@ != state.devices@[d].id@);
            }
            if i > 0 {
                let f = order[0];
                assert(f != d);
                if d < f {
                    assert(state.devices@[d].id@ != state.devices@[f].id@);
                } else {
                    assert(state.devices@[f].id@ != state.devices@[d].id@);
                }
            }
        }
    }
}

/// A port is shown under its path with its kind, a USB port with what the bus
/// says of it, and every port found is listed in order.
pub proof fn law_ports(port: &FoundPort, info: PortInfo, found: &Option<Vec<FoundPort>>, r: ListPortsResult, i: int)
    requires
        call_ensures(port_info, (port,), info),
        call_ensures(list_ports, (found,), r),
    ensures
        info.path@ == port.path@,
        port.kind is Pci ==> info.kind@ == "pci"@,
        port.kind is Bluetooth ==> info.kind@ == "bluetooth"@,
        port.kind is Unknown ==> info.kind@ == "unknown"@,
        port.kind matches FoundKind::Usb(u) ==> info.kind@ == "usb"@ && info.manufacturer
            == u.manufacturer && info.product == u.product && info.serial_number == u.serial_number
            && info.vid is Some && info.vid->Some_0@.len() == 4 && info.pid is Some
            && info.pid->Some_0@.len() == 4,
        !(port.kind is Usb) ==> info.manufacturer is None && info.product is None && info.vid is None
            && info.pid is None && info.serial_number is None,
        found is None ==> r.ports@.len() == 0,
        found matches Some(all) ==> r.ports@.len() == all@.len() && (0 <= i < all@.len()
            ==> r.ports@[i].path@ == all@[i].path@),
{
    if let FoundKind::Usb(u) = port.kind {
        crate::text::lemma_hex_length(u.vid as nat, 4);
        crate::text::lemma_hex_length(u.pid as nat, 4);
    }
}

// ---------- Changing and operating devices ----------

/// A request for settings is refused as a whole if one value is no setting or
/// none is given; otherwise exactly the values given are asked of the device
/// named, or the only one.
pub proof fn law_asking_for_settings(
    state: &DaemonState,
    p: &SetDeviceParams,
    r: Result<(usize, SerialSettings), ProtocolError>,
)
    requires
        call_ensures(set_device, (state, p), r),
        state.wf(),
    ensures
        r matches Ok(x) ==> {
            let s = x.1;
            &&& s.baud == p.baud
            &&& match p.data_bits {
                Some(n) => s.data_bits is Some && s.data_bits->Some_0.count() == n,
                None => s.data_bits is None,
            }
            &&& match p.parity {
                Some(w) => s.parity is Some && s.parity == Parity::of_word(w@),
                None => s.parity is None,
            }
            &&& match p.stop_bits {
                Some(n) => s.stop_bits is Some && s.stop_bits->Some_0.count() == n,
                None => s.stop_bits is None,
            }
            &&& match p.flow_control {
                Some(w) => s.flow_control is Some && s.flow_control == FlowControl::of_word(w@),
                None => s.flow_control is None,
            }
            &&& x.0 < state.devices@.len()
            &&& p.device_id matches Some(d) ==> state.devices@[x.0 as int].id@ == d@
            &&& p.device_id is None ==> state.devices@.len() == 1
        },
        (p.data_bits matches Some(n) && !(5 <= n <= 8)) ==> (r matches Err(e) && e.code == -32008
            && e.message@ == "data_bits must be 5..=8, got "@ + decimal(
            p.data_bits->Some_0 as nat,
        )),
        (p.stop_bits matches Some(n) && !(1 <= n <= 2)) ==> (r matches Err(e) && e.code == -32008),
        (p.parity matches Some(w) && Parity::of_word(w@) is None) ==> (r matches Err(e) && e.code
            == -32008),
        (p.flow_control matches Some(w) && FlowControl::of_word(w@) is None) ==> (r matches Err(e)
            && e.code == -32008),
        p.baud is None && p.data_bits is None && p.parity is None && p.stop_bits is None
            && p.flow_control is None ==> (r matches Err(e) && e.code == -32602),
        p.baud is Some && p.data_bits is None && p.parity is None && p.stop_bits is None
            && p.flow_control is None && p.device_id is None ==> (if state.devices@.len() == 1 {
            r is Ok
        } else {
            r matches Err(e) && e.code == -32015
        }),
        p.baud is Some && p.data_bits is None && p.parity is None && p.stop_bits is None
            && p.flow_control is None ==> (p.device_id matches Some(d) ==> (forall|i: int|
            0 <= i < state.devices@.len() ==> (#[trigger] state.devices@[i]).id@ != d@) ==> (
        r matches Err(e) && e.code == -32009)),
{
}

/// Settings of which every one is valid are accepted for a device that is there;
/// the first that is not is named.
pub proof fn law_valid_settings_are_accepted(
    state: &DaemonState,
    p: &SetDeviceParams,
    r: Result<(usize, SerialSettings), ProtocolError>,
    i: int,
)
    requires
        call_ensures(set_device, (state, p), r),
        state.wf(),
    ensures
        ({
            let data = p.data_bits matches Some(n) ==> 5 <= n <= 8;
            let parity = p.parity matches Some(w) ==> Parity::of_word(w@) is Some;
            let stop = p.stop_bits matches Some(n) ==> 1 <= n <= 2;
            let flow = p.flow_control matches Some(w) ==> FlowControl::of_word(w@) is Some;
            let any = p.baud is Some || p.data_bits is Some || p.parity is Some
                || p.stop_bits is Some || p.flow_control is Some;
            let there = 0 <= i < state.devices@.len() && match p.device_id {
                Some(d) => state.devices@[i].id@ == d@,
                None => state.devices@.len() == 1,
            };
            &&& data && parity && stop && flow && any && there ==> r is Ok && r->Ok_0.0 == i
            &&& data && !parity ==> r is Err && r->Err_0.message@
                == "parity must be none|odd|even, got "@ + quoted_text(p.parity->Some_0@)
            &&& data && parity && !stop ==> r is Err && r->Err_0.message@
                == "stop_bits must be 1 or 2, got "@ + decimal(p.stop_bits->Some_0 as nat)
            &&& data && parity && stop && !flow ==> r is Err && r->Err_0.message@
                == "flow_control must be none|software|hardware, got "@ + quoted_text(
                p.flow_control->Some_0@,
            )
        }),
{
    if 0 <= i < state.devices@.len() {
        let d = state.devices@[i].id@;
        assert(is_device_at(state.devices@, d, i));
        assert forall|k: int|
            #![trigger state.devices@[k]]
            is_device_at(state.devices@, d, k) implies k == i by {
            if k < i {
                assert(state.devices@[k].id@ != state.devices@[i].id@);
            } else if i < k {
                assert(state.devices@[i].id@ != state.devices@[k].id@);
            }
        }
    }
    if let Ok(x) = r {
        assert(0 <= x.0 < state.devices@.len());
        assert(state.devices@[x.0 as int].id@ == state.devices@[x.0 as int].id@);
    }
}

/// A change of settings is answered with the device as it is, and every client
/// hears of it; a failed one with the code for its reason.
pub proof fn law_settings_answer(
    device: &Device,
    outcome: &Result<(), IoFault>,
    r: Result<(SetDeviceResult, DeviceEvent), ProtocolError>,
)
    requires
        call_ensures(set_device_finished, (device, outcome), r),
    ensures
        r is Ok <==> outcome is Ok,
        r matches Ok(x) ==> opt_view(x.0.device.id) == Some(device.id@) && x.0.device.baud
            == device.config.baud && x.1.kind == DeviceEventKind::ConfigChanged && x.1.detail is Some,
        outcome matches Err(f) ==> (r matches Err(e) && e.message@ == f.message@ && e.code == (
        match f.kind {
            FaultKind::Unsupported => -32007int,
            FaultKind::NotConnected => -32005int,
            FaultKind::Other => -32008int,
        })),
{
}

/// Each line request asks its own operation, with its own value, of the device
/// named or the only one.
pub proof fn law_line_requests(
    state: &DaemonState,
    brk: &SendBreakParams,
    line: &SetLineParams,
    dev: &DeviceTarget,
    r1: Result<(usize, ControlMsg), ProtocolError>,
    r2: Result<(usize, ControlMsg), ProtocolError>,
    r3: Result<(usize, ControlMsg), ProtocolError>,
    r4: Result<(usize, ControlMsg), ProtocolError>,
    r5: Result<(usize, ControlMsg), ProtocolError>,
    r6: Result<(usize, ControlMsg), ProtocolError>,
)
    requires
        call_ensures(send_break, (state, brk), r1),
        call_ensures(set_dtr, (state, line), r2),
        call_ensures(set_rts, (state, line), r3),
        call_ensures(read_modem_status, (state, dev), r4),
        call_ensures(disconnect_device, (state, dev), r5),
        call_ensures(connect_device, (state, dev), r6),
    ensures
        r1 matches Ok(x) ==> x.1 == ControlMsg::SendBreak(brk.duration_ms) && x.0
            < state.devices@.len() && (brk.device_id matches Some(d) ==> state.devices@[x.0 as int].id@
            == d@) && (brk.device_id is None ==> state.devices@.len() == 1),
        r2 matches Ok(x) ==> x.1 == ControlMsg::SetDtr(line.on) && x.0 < state.devices@.len() && (
        line.device_id matches Some(d) ==> state.devices@[x.0 as int].id@ == d@),
        r3 matches Ok(x) ==> x.1 == ControlMsg::SetRts(line.on) && x.0 < state.devices@.len() && (
        line.device_id matches Some(d) ==> state.devices@[x.0 as int].id@ == d@),
        r4 matches Ok(x) ==> x.1 == ControlMsg::ReadModem && (dev.device_id matches Some(d)
            ==> state.devices@[x.0 as int].id@ == d@),
        r5 matches Ok(x) ==> x.1 == ControlMsg::Disconnect && (dev.device_id matches Some(d)
            ==> state.devices@[x.0 as int].id@ == d@),
        r6 matches Ok(x) ==> x.1 == ControlMsg::Connect && (dev.device_id matches Some(d)
            ==> state.devices@[x.0 as int].id@ == d@),
        state.devices@.len() == 1 && brk.device_id is None ==> r1 is Ok,
        state.devices@.len() == 1 && line.device_id is None ==> r2 is Ok && r3 is Ok,
        state.devices@.len() == 1 && dev.device_id is None ==> r4 is Ok && r5 is Ok && r6 is Ok,
        state.devices@.len() > 1 && dev.device_id is None ==> (r4 matches Err(e) && e.code == -32015)
            && (r5 matches Err(e) && e.code == -32015) && (r6 matches Err(e) && e.code == -32015),
{
}

/// A line operation is acknowledged if and only if the port performed it; a
/// failure is answered with the code for its reason, and so is a failed write.
pub proof fn law_operation_answers(
    outcome: &Result<(), IoFault>,
    r: Result<AckResult, ProtocolError>,
    f: &IoFault,
    e: ProtocolError,
)
    requires
        call_ensures(line_finished, (outcome,), r),
        call_ensures(writer_error_to_proto, (f,), e),
    ensures
        r is Ok <==> outcome is Ok,
        r matches Ok(a) ==> a.ok,
        outcome matches Err(g) ==> (r matches Err(x) && x.message@ == g.message@ && x.code == (
        match g.kind {
            FaultKind::Unsupported => -32007int,
            FaultKind::NotConnected => -32005int,
            FaultKind::Other => -32603int,
        })),
        e.message@ == f.message@,
        f.kind == FaultKind::NotConnected ==> e.code == -32005,
        f.kind != FaultKind::NotConnected ==> e.code == -32603,
{
}

/// A reconnect kicks the device named, waits as long as asked, and reports
/// success if the port came back or is up after all; a port that is down comes
/// with the reason. A connect reports whether the port is open now.
pub proof fn law_reconnecting(
    state: &DaemonState,
    p: &ReconnectParams,
    plan: Result<(usize, Option<u64>), ProtocolError>,
    device: &Device,
    wait: ReconnectWait,
    r: ReconnectResult,
    c: ConnectDeviceResult,
)
    requires
        call_ensures(reconnect, (state, p), plan),
        call_ensures(reconnect_result, (device, wait), r),
        call_ensures(connect_finished, (device,), c),
    ensures
        plan matches Ok(x) ==> (p.wait ==> x.1 == Some(p.timeout_ms as u64)) && (!p.wait ==> x.1
            is None) && x.0 < state.devices@.len() && (p.device_id matches Some(d)
            ==> state.devices@[x.0 as int].id@ == d@),
        p.device_id is None && state.devices@.len() == 1 ==> plan is Ok,
        p.device_id is None && state.devices@.len() > 1 ==> (plan matches Err(e) && e.code
            == -32015),
        r.triggered && r.device_connected == device.state.connected,
        wait == ReconnectWait::Reopened ==> r.reconnected,
        wait == ReconnectWait::Skipped ==> !r.reconnected,
        wait == ReconnectWait::TimedOut ==> r.reconnected == device.state.connected,
        device.state.connected ==> r.reason is None,
        !device.state.connected ==> opt_view(r.reason) == opt_view(
            device.state.last_disconnect_reason,
        ),
        c.connected == device.state.connected && opt_view(c.device.id) == Some(device.id@),
{
}

/// Every error has the number that clients know it by, and its message unless a
/// better one is given.
pub proof fn law_error_numbers(code: ErrorCode, e: ProtocolError, n: i32)
    requires
        call_ensures(ProtocolError::new, (code,), e),
        call_ensures(ErrorCode::as_i32, (code,), n),
    ensures
        e.code == n && e.data is None,
        code == ErrorCode::ParseError ==> n == -32700,
        code == ErrorCode::InvalidRequest ==> n == -32600,
        code == ErrorCode::MethodNotFound ==> n == -32601,
        code == ErrorCode::InvalidParams ==> n == -32602,
        code == ErrorCode::InternalError ==> n == -32603,
        code == ErrorCode::Timeout ==> n == -32001,
        code == ErrorCode::SessionNotAttached ==> n == -32002,
        code == ErrorCode::ModeViolation ==> n == -32003,
        code == ErrorCode::LockContention ==> n == -32004,
        code == ErrorCode::DeviceDisconnected ==> n == -32005,
        code == ErrorCode::BufferOverflow ==> n == -32006,
        code == ErrorCode::UnsupportedSerialOp ==> n == -32007,
        code == ErrorCode::InvalidSerialSetting ==> n == -32008,
        code == ErrorCode::DeviceNotFound ==> n == -32009,
        code == ErrorCode::UnsupportedProtocol ==> n == -32010,
        code == ErrorCode::NotInitialized ==> n == -32011,
        code == ErrorCode::SessionNotFound ==> n == -32012,
        code == ErrorCode::ModeConflict ==> n == -32013,
        code == ErrorCode::Unauthorized ==> n == -32014,
        code == ErrorCode::AmbiguousDevice ==> n == -32015,
        code == ErrorCode::Cancelled ==> n == -32800,
{
}

/// A change of configuration is summed up as it now is.
pub proof fn law_config_summary(cfg: &SerialConfig, s: String)
    requires
        call_ensures(summarize_config, (cfg,), s),
    ensures
        s@ == "config changed: "@ + decimal(cfg.baud as nat) + " "@ + decimal(
            cfg.data_bits.count() as nat,
        ) + (match cfg.parity {
            Parity::Disabled => "N"@,
            Parity::Odd => "O"@,
            Parity::Even => "E"@,
        }) + decimal(cfg.stop_bits.count() as nat) + " flow="@ + (match cfg.flow_control {
            FlowControl::Disabled => "none"@,
            FlowControl::Software => "software"@,
            FlowControl::Hardware => "hardware"@,
        }),
{
}

/// Dropped bytes are counted without fail, and a warning gives the total.
pub proof fn law_dropped_bytes(c: &mut DropCounter, n: u64, now_ms: u64, warn: Option<u64>)
    requires
        call_ensures(DropCounter::record, (c, n, now_ms), warn),
        old(c).dropped_bytes + n <= u64::MAX,
    ensures
        final(c).dropped_bytes == old(c).dropped_bytes + n,
        old(c).last_warn is None ==> warn == Some(final(c).dropped_bytes),
        old(c).last_warn matches Some(t) ==> (warn is Some <==> now_ms >= t + 5000),
        warn matches Some(total) ==> total == final(c).dropped_bytes && final(c).last_warn == Some(
            now_ms,
        ),
        warn is None ==> final(c).last_warn == old(c).last_warn,
{
}

} // verus!
