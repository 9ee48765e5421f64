//! What the client prints.

use vstd::prelude::*;
use vstd::string::*;
use vstd::utf8::*;

use crate::conn::{is_due, is_fan_out, Due, FanOut};
use crate::encoding::{b64_decode_raw, base64_bytes};
use crate::message::{
    DeviceInfo, DeviceSummary, ListDevicesResult, PortInfo, ReadModemStatusResult,
};
use crate::session::Session;
use crate::shell::{bit, bit_text, capital, capital_of};
use crate::state::Device;
use crate::text::{
    cat2, cat3, cat4, cat5, dec_u64, decimal, has_suffix, lossy, lossy_text, opt_view, pad_right,
    padded, push_line, quoted, quoted_text, str_eq, views,
};

verus! {

/// The text of captured bytes, given in base64; none if it is not base64.
pub fn captured_text(before_b64: &str) -> (t: Option<String>)
    ensures
        match base64_bytes(before_b64@) {
            Ok(bytes) => t matches Some(s) && s@ == lossy_text(bytes) && (valid_utf8(bytes) ==> s@
                == decode_utf8(bytes)),
            Err(_) => t is None,
        },
{
    match b64_decode_raw(before_b64) {
        Ok(bytes) => Some(lossy(bytes.as_slice())),
        Err(_) => None,
    }
}

/// The bytes in a `data` notification for session `sid`: none if it is for
/// another session or carries none.
pub open spec fn brought(
    for_session: Option<Seq<char>>,
    data: Option<Seq<char>>,
    sid: Seq<char>,
) -> Option<Seq<u8>> {
    match (for_session, data) {
        (Some(s), _) if s != sid => None,
        (_, Some(d)) => match base64_bytes(d) {
            Ok(bytes) => Some(bytes),
            Err(_) => None,
        },
        (_, None) => None,
    }
}

/// What a session is notified of is what its device sent: the bytes that the
/// client reads out of the notification are those of the ring from the
/// session's cursor on, and no other session's client takes them.
pub proof fn law_notified_bytes_arrive(
    device: Device,
    session: Session,
    due: Due,
    f: FanOut,
    other: Seq<char>,
)
    requires
        is_due(device, session, due),
        is_fan_out(due, session.id@, device.id@, f),
    ensures
        f.data is Some <==> device.buffer.readable(session.notify_cursor as int).len() > 0,
        f.data matches Some(n) ==> brought(Some(n.session_id@), Some(n.data@), session.id@) == Some(
            device.buffer.readable(session.notify_cursor as int),
        ),
        f.data matches Some(n) ==> other != session.id@ ==> brought(
            Some(n.session_id@),
            Some(n.data@),
            other,
        ) is None,
{
}

/// The bytes that a `data` notification brings to a session: none if it is for
/// another session or carries none. A notification that names no session is for
/// every one.
pub fn notified_bytes(for_session: &Option<String>, data_b64: &Option<String>, session_id: &str) -> (
bytes: Option<Vec<u8>>)
    ensures
        match brought(opt_view(*for_session), opt_view(*data_b64), session_id@) {
            Some(b) => bytes matches Some(v) && v@ == b,
            None => bytes is None,
        },
{
    if let Some(s) = for_session {
        if !str_eq(s.as_str(), session_id) {
            return None;
        }
    }
    match data_b64 {
        Some(d) => match b64_decode_raw(d.as_str()) {
            Ok(b) => Some(b),
            Err(_) => None,
        },
        None => None,
    }
}

/// `[device <kind>]`, with the detail where there is one.
pub fn device_event_text(kind: &str, detail: &str) -> (s: String)
    ensures
        s@ == (if detail@.len() == 0 {
            "[device "@ + kind@ + "]"@
        } else {
            "[device "@ + kind@ + ": "@ + detail@ + "]"@
        }),
{
    if detail.unicode_len() == 0 {
        cat3("[device ", kind, "]")
    } else {
        cat5("[device ", kind, ": ", detail, "]")
    }
}

// ---------- Results of run, expect and exec ----------

/// The part of a summary that tells the time and what was cut off.
pub open spec fn summary_tail(
    duration_ms: Option<u64>,
    truncated: bool,
    original_bytes: Option<u64>,
) -> Seq<char> {
    (match duration_ms {
        Some(d) => ", "@ + decimal(d as nat) + "ms"@,
        None => ""@,
    }) + (if truncated {
        match original_bytes {
            Some(n) => ", truncated from "@ + decimal(n as nat) + "B"@,
            None => ", truncated"@,
        }
    } else {
        ""@
    }) + "]"@
}

fn summary_tail_text(duration_ms: Option<u64>, truncated: bool, original_bytes: Option<u64>) -> (s:
    String)
    ensures
        s@ == summary_tail(duration_ms, truncated, original_bytes),
{
    let time = match duration_ms {
        Some(d) => cat3(", ", dec_u64(d).as_str(), "ms"),
        None => "".to_owned(),
    };
    let cut = if truncated {
        match original_bytes {
            Some(n) => cat3(", truncated from ", dec_u64(n).as_str(), "B"),
            None => ", truncated".to_owned(),
        }
    } else {
        "".to_owned()
    };
    cat3(time.as_str(), cut.as_str(), "]")
}

/// `[matched: <match>...]`, the match given in quotes.
pub fn match_summary_text(
    quoted_match: &str,
    duration_ms: Option<u64>,
    truncated: bool,
    original_bytes: Option<u64>,
) -> (s: String)
    ensures
        s@ == "[matched: "@ + quoted_match@ + summary_tail(duration_ms, truncated, original_bytes),
{
    cat3(
        "[matched: ",
        quoted_match,
        summary_tail_text(duration_ms, truncated, original_bytes).as_str(),
    )
}

/// The summary of a match.
pub fn match_summary(
    match_text: &str,
    duration_ms: Option<u64>,
    truncated: bool,
    original_bytes: Option<u64>,
) -> (s: String)
    ensures
        s@ == "[matched: "@ + quoted_text(match_text@) + summary_tail(
            duration_ms,
            truncated,
            original_bytes,
        ),
{
    match_summary_text(quoted(match_text).as_str(), duration_ms, truncated, original_bytes)
}

/// Whether the summary of a match is shown: on a terminal, or when something
/// was cut off.
pub fn shows_match_summary(truncated: bool, terminal: bool) -> (b: bool)
    ensures
        b == (truncated || terminal),
{
    truncated || terminal
}

/// The summary of an `exec`: its status, or that it is unknown.
pub fn exec_summary(
    status: Option<u8>,
    duration_ms: Option<u64>,
    truncated: bool,
    original_bytes: Option<u64>,
) -> (s: String)
    ensures
        s@ == "[exit "@ + (match status {
            Some(n) => decimal(n as nat),
            None => "unknown"@,
        }) + summary_tail(duration_ms, truncated, original_bytes),
{
    let code = match status {
        Some(n) => dec_u64(n as u64),
        None => "unknown".to_owned(),
    };
    cat3(
        "[exit ",
        code.as_str(),
        summary_tail_text(duration_ms, truncated, original_bytes).as_str(),
    )
}

/// Whether the summary of an `exec` is shown: on a terminal, when something was
/// cut off, and whenever the command did not report success.
pub fn shows_exec_summary(status: Option<u8>, truncated: bool, terminal: bool) -> (b: bool)
    ensures
        b == (status != Some(0u8) || truncated || terminal),
{
    let ok: bool = match status {
        Some(n) => n == 0,
        None => false,
    };
    !ok || truncated || terminal
}

/// Whether a line break is missing after printed output. An empty `exec` output
/// needs none.
pub fn lacks_newline(text: &str, empty_is_fine: bool) -> (b: bool)
    ensures
        b == (!crate::text::ends_with(text@, "\n"@) && !(empty_is_fine && text@.len() == 0)),
{
    !has_suffix(text, "\n") && !(empty_is_fine && text.unicode_len() == 0)
}

// ---------- Lists ----------

/// `<label><value>`, if there is a value.
pub open spec fn detail(label: Seq<char>, value: Option<String>) -> Seq<Seq<char>> {
    match value {
        Some(v) => seq![label + v@],
        None => Seq::empty(),
    }
}

/// What is known about a port.
pub open spec fn port_details(p: PortInfo) -> Seq<Seq<char>> {
    detail("manufacturer="@, p.manufacturer) + detail("product="@, p.product) + detail(
        "serial="@,
        p.serial_number,
    ) + (match (p.vid, p.pid) {
        (Some(v), Some(d)) => seq!["usb="@ + v@ + ":"@ + d@],
        _ => Seq::empty(),
    })
}

/// The parts joined by commas.
pub open spec fn comma_joined(parts: Seq<Seq<char>>) -> Seq<char>
    decreases parts.len(),
{
    if parts.len() == 0 {
        ""@
    } else if parts.len() == 1 {
        parts[0]
    } else {
        comma_joined(parts.drop_last()) + ", "@ + parts.last()
    }
}

fn join_commas(parts: &Vec<String>) -> (s: String)
    ensures
        s@ == comma_joined(views(parts@)),
{
    let ghost all = views(parts@);
    if parts.len() == 0 {
        return "".to_owned();
    }
    let mut s = parts[0].clone();
    let mut i: usize = 1;
    assert(all.take(1).len() == 1 && all.take(1)[0] == all[0]);
    while i < parts.len()
        invariant
            1 <= i <= parts@.len(),
            all == views(parts@),
            s@ == comma_joined(all.take(i as int)),
        decreases parts@.len() - i,
    {
        s.append(", ");
        s.append(parts[i].as_str());
        i = i + 1;
        assert(all.take(i as int).drop_last() =~= all.take(i - 1));
        assert(all.take(i as int).last() == parts@[i - 1]@);
    }
    assert(all.take(i as int) =~= all);
    s
}

fn push_detail(parts: &mut Vec<String>, label: &str, value: &Option<String>)
    ensures
        views(final(parts)@) == views(old(parts)@) + detail(label@, *value),
{
    if let Some(v) = value {
        push_line(parts, cat2(label, v.as_str()));
    }
    assert(views(parts@) =~= views(old(parts)@) + detail(label@, *value));
}

fn port_detail_parts(p: &PortInfo) -> (parts: Vec<String>)
    ensures
        views(parts@) == port_details(*p),
{
    let mut parts: Vec<String> = Vec::new();
    push_detail(&mut parts, "manufacturer=", &p.manufacturer);
    assert(views(parts@) =~= detail("manufacturer="@, p.manufacturer));
    push_detail(&mut parts, "product=", &p.product);
    push_detail(&mut parts, "serial=", &p.serial_number);
    let ghost before = views(parts@);
    if let (Some(v), Some(d)) = (&p.vid, &p.pid) {
        push_line(&mut parts, cat4("usb=", v.as_str(), ":", d.as_str()));
    }
    assert(views(parts@) =~= port_details(*p));
    parts
}

/// The line for one port.
pub open spec fn port_line(p: PortInfo) -> Seq<char> {
    if port_details(p).len() == 0 {
        p.path@ + "  ("@ + p.kind@ + ")"@
    } else {
        p.path@ + "  ("@ + p.kind@ + ")  "@ + comma_joined(port_details(p))
    }
}

/// The lines for the ports of a machine.
pub fn port_lines(ports: &Vec<PortInfo>) -> (lines: Vec<String>)
    ensures
        views(lines@) == Seq::new(ports@.len(), |i: int| port_line(ports@[i])),
{
    let mut lines: Vec<String> = Vec::new();
    let mut i: usize = 0;
    assert(views(lines@) =~= Seq::new(0, |i: int| port_line(ports@[i])));
    while i < ports.len()
        invariant
            i <= ports@.len(),
            views(lines@) == Seq::new(i as nat, |i: int| port_line(ports@[i])),
        decreases ports@.len() - i,
    {
        let p = &ports[i];
        let parts = port_detail_parts(p);
        assert(views(parts@).len() == parts@.len());
        let line = if parts.len() == 0 {
            cat4(p.path.as_str(), "  (", p.kind.as_str(), ")")
        } else {
            cat5(
                p.path.as_str(),
                "  (",
                p.kind.as_str(),
                ")  ",
                join_commas(&parts).as_str(),
            )
        };
        push_line(&mut lines, line);
        i = i + 1;
        assert(views(lines@) =~= Seq::new(i as nat, |i: int| port_line(ports@[i])));
    }
    lines
}

/// Whether a device is connected, and if not, whether on request.
pub open spec fn connection_status(d: DeviceSummary) -> Seq<char> {
    if d.explicitly_disconnected {
        "disconnected (explicit)"@
    } else if d.connected {
        "connected"@
    } else {
        "disconnected"@
    }
}

/// The line for one device.
pub open spec fn device_line(d: DeviceSummary, default: Seq<char>) -> Seq<char> {
    padded(d.id@, 10) + "  "@ + d.path@ + " @ "@ + decimal(d.baud as nat) + " "@ + decimal(
        d.data_bits as nat,
    ).push(capital(d.parity@)) + decimal(d.stop_bits as nat) + " flow="@ + d.flow_control@ + "  ["@
        + connection_status(d) + "]"@ + (if d.id@ == default {
        " (default)"@
    } else {
        ""@
    })
}

fn device_line_text(d: &DeviceSummary, default: &str) -> (s: String)
    ensures
        s@ == device_line(*d, default@),
{
    let mut bits = dec_u64(d.data_bits as u64);
    bits.push(capital_of(d.parity.as_str()));
    let status = if d.explicitly_disconnected {
        "disconnected (explicit)"
    } else if d.connected {
        "connected"
    } else {
        "disconnected"
    };
    let mark = if str_eq(d.id.as_str(), default) {
        " (default)"
    } else {
        ""
    };
    let mut s = cat5(
        pad_right(d.id.as_str(), 10).as_str(),
        "  ",
        d.path.as_str(),
        " @ ",
        dec_u64(d.baud as u64).as_str(),
    );
    s.append(" ");
    s.append(bits.as_str());
    s.append(dec_u64(d.stop_bits as u64).as_str());
    s.append(" flow=");
    s.append(d.flow_control.as_str());
    s.append("  [");
    s.append(status);
    s.append("]");
    s.append(mark);
    s
}

/// The lines for the devices of a daemon.
pub fn device_lines(l: &ListDevicesResult) -> (lines: Vec<String>)
    ensures
        views(lines@) == Seq::new(
            l.devices@.len(),
            |i: int| device_line(l.devices@[i], l.default_device@),
        ),
{
    let mut lines: Vec<String> = Vec::new();
    let mut i: usize = 0;
    assert(views(lines@) =~= Seq::new(
        0,
        |i: int| device_line(l.devices@[i], l.default_device@),
    ));
    while i < l.devices.len()
        invariant
            i <= l.devices@.len(),
            views(lines@) == Seq::new(
                i as nat,
                |i: int| device_line(l.devices@[i], l.default_device@),
            ),
        decreases l.devices@.len() - i,
    {
        push_line(&mut lines, device_line_text(&l.devices[i], l.default_device.as_str()));
        i = i + 1;
        assert(views(lines@) =~= Seq::new(
            i as nat,
            |i: int| device_line(l.devices@[i], l.default_device@),
        ));
    }
    lines
}

/// The modem status lines.
pub fn modem_line(m: &ReadModemStatusResult) -> (s: String)
    ensures
        s@ == "CTS="@ + bit(m.cts) + "  DSR="@ + bit(m.dsr) + "  RI="@ + bit(m.ri) + "  DCD="@
            + bit(m.dcd),
{
    let mut s = cat5("CTS=", bit_text(m.cts), "  DSR=", bit_text(m.dsr), "  RI=");
    s.append(bit_text(m.ri));
    s.append("  DCD=");
    s.append(bit_text(m.dcd));
    s
}

/// The configuration of a device, line by line.
pub fn config_lines(d: &DeviceInfo) -> (lines: Vec<String>)
    ensures
        views(lines@) == seq![
            "path:         "@ + d.path@,
            "baud:         "@ + decimal(d.baud as nat),
            "framing:      "@ + decimal(d.data_bits as nat).push(capital(d.parity@)) + decimal(
                d.stop_bits as nat,
            ),
            "flow_control: "@ + d.flow_control@,
            "connected:    "@ + (if d.connected {
                "true"@
            } else {
                "false"@
            }),
        ],
{
    let mut bits = dec_u64(d.data_bits as u64);
    bits.push(capital_of(d.parity.as_str()));
    let connected = if d.connected {
        "true"
    } else {
        "false"
    };
    let mut lines: Vec<String> = Vec::new();
    push_line(&mut lines, cat2("path:         ", d.path.as_str()));
    push_line(&mut lines, cat2("baud:         ", dec_u64(d.baud as u64).as_str()));
    push_line(
        &mut lines,
        cat3("framing:      ", bits.as_str(), dec_u64(d.stop_bits as u64).as_str()),
    );
    push_line(&mut lines, cat2("flow_control: ", d.flow_control.as_str()));
    push_line(&mut lines, cat2("connected:    ", connected));
    assert(views(lines@) =~= seq![
        "path:         "@ + d.path@,
        "baud:         "@ + decimal(d.baud as nat),
        "framing:      "@ + decimal(d.data_bits as nat).push(capital(d.parity@)) + decimal(
            d.stop_bits as nat,
        ),
        "flow_control: "@ + d.flow_control@,
        "connected:    "@ + (if d.connected {
            "true"@
        } else {
            "false"@
        }),
    ]);
    lines
}

} // verus!
