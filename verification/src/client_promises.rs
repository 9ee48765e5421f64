//! What the client promises its user.

use vstd::prelude::*;
use vstd::string::*;
use vstd::utf8::*;

use crate::client::{
    after_recovery, answers, autostart, check_standalone, choice_views, dash_d_hint, device_picker,
    embedded_daemon_args, embedded_step, endpoint_kind, env_forces_noninteractive,
    interactive_allowed, is_daemon_socket_name, make_tcp_connect_error, make_uds_connect_error,
    managed_device_id, managed_from, map_rpc_error, may_autostart, menu_lines, pick_index,
    port_description, port_of, private_path, rewrite_argv_for_path_shorthand, select_port_choices,
    share_lines, should_reconnect, tcp_share, AfterRecovery, AutoStart, CliError, DialFault,
    EmbeddedStep, Endpoint, PortChoice, Recovery, TcpShare,
};
use crate::command::{
    apply_newline, attach_params, command_needs_device, device_call, expect_params, find_row,
    heard_with, hello_params, is_row_of, joined_ids, last_line, needs_personality, prompt_candidate,
    report_connect, report_reconnect, run_newline, run_params, run_until, select_status,
    send_params, session_replay, sync_idle, sync_params, sync_window, target_row, wait_timeout_text,
    Cmd, DeviceCall, RunArgs,
};
use crate::exec::{exec_timeout_line, text_at, wrap_exec_command, Wrapping};
use crate::message::{
    AttachParams, DeviceInfo, DeviceStatus, DeviceSummary, ExpectParams, HelloParams,
    ListDevicesResult, PortInfo, ReadModemStatusResult, ReplaySpec, RpcId, RunParams, SendParams,
    StatusResult,
};
use crate::render::{
    captured_text, config_lines, device_event_text, device_lines, exec_summary, lacks_newline,
    match_summary_text, modem_line, notified_bytes, port_lines, shows_exec_summary,
    shows_match_summary,
};
use crate::shell::{
    call_of, config_text, failure_text, line_text, lines_text, ports_text, Key, ShellCommand,
    ShellState,
};
use crate::text::{
    decimal, ends_with, law_decimal_digits, law_split_rejoins, law_trim, law_unsigned,
    law_white_space, lemma_find_char, lemma_find_char_at, lemma_trim_keeps, lossy_text, lower,
    opt_view, split, starts_with, trim, views,
};

verus! {

// ---------- Errors and exit codes ----------

/// Scripts tell failures apart by their exit codes: a timeout is 124, a lost
/// device 4, too much data 5, a held lock 6, a bad token 7 and any other error
/// of the daemon 2. A call that the daemon refused never looks like success.
pub proof fn law_exit_codes(code: i32, msg: &str, e: CliError, exit: u8, said: Option<String>)
    requires
        call_ensures(map_rpc_error, (code, msg), e),
        call_ensures(CliError::exit_code, (&e,), exit),
        call_ensures(CliError::explain, (&e,), said),
    ensures
        exit == (if code == -32001 {
            124int
        } else if code == -32005 {
            4
        } else if code == -32006 {
            5
        } else if code == -32004 {
            6
        } else if code == -32014 {
            7
        } else {
            2
        }),
        code == -32014 ==> opt_view(said) == Some("tether: unauthorized: "@ + msg@),
        code == -32004 || code == -32006 ==> said is Some,
        code == -32001 || code == -32005 ==> said is None,
        code == -32002 ==> opt_view(said) == Some(
            "protocol error: "@ + ("rpc "@ + (seq!['-'] + decimal(32002)) + ": "@ + msg@),
        ),
        exit == 2 && code < 0 ==> opt_view(said) == Some(
            "protocol error: "@ + ("rpc "@ + (seq!['-'] + decimal((-(code as int)) as nat)) + ": "@
                + msg@),
        ),
{
}

/// Failures of the client itself have codes of their own.
pub proof fn law_own_exit_codes(e: CliError, exit: u8, said: Option<String>)
    requires
        call_ensures(CliError::exit_code, (&e,), exit),
        call_ensures(CliError::explain, (&e,), said),
    ensures
        e matches CliError::Usage(m) ==> opt_view(said) == Some("tether: "@ + m@),
        e matches CliError::Connection(m) ==> opt_view(said) == Some(
            if m@.contains('\n') {
                m@
            } else {
                "tether: connection error: "@ + m@
            },
        ),
        e is RemoteExit || e is UnknownStatus ==> said is None,
        e is Connection ==> exit == 3,
        e is Usage ==> exit == 1,
        e is Protocol ==> exit == 2,
        e is UnknownStatus ==> exit == 8,
        e matches CliError::RemoteExit(n) ==> exit == n,
{
}

/// A call is made once more only if asked for, after a lost device, and never
/// for the call that brings it back; what counts then is whether it came back.
/// An answer belongs to the request with its number.
pub proof fn law_retrying(
    auto: bool,
    method: &str,
    failure: &CliError,
    b: bool,
    r: Recovery,
    a: AfterRecovery,
    response_id: &RpcId,
    id: i64,
    mine: bool,
)
    requires
        call_ensures(should_reconnect, (auto, method, failure), b),
        call_ensures(after_recovery, (r,), a),
        call_ensures(answers, (response_id, id), mine),
    ensures
        b <==> auto && failure is DeviceDisconnected && method@ != "reconnect"@,
        r == Recovery::Back ==> a == AfterRecovery::Retry,
        r == Recovery::StillGone ==> a == AfterRecovery::Disconnected,
        r == Recovery::CallFailed ==> a == AfterRecovery::FirstFailure,
        mine <==> *response_id == RpcId::Number(id),
{
}

// ---------- Finding a daemon ----------

/// A path as the first argument, where no device is given otherwise, stands for
/// `-D` and that path; everything else stays as it was typed.
pub proof fn law_path_shorthand(args: &mut Vec<String>)
    requires
        call_ensures(rewrite_argv_for_path_shorthand, (args,), ()),
    ensures
        ({
            let a = views(old(args)@);
            let b = views(final(args)@);
            &&& a.len() < 2 ==> b == a
            &&& a.len() >= 2 && a[1].len() > 0 && a[1][0] == '-' ==> b == a
            &&& a.len() >= 2 && !a[1].contains('/') && (a[1].len() == 0 || a[1][0] != '~') ==> b == a
            &&& a.len() == 2 && a[1].len() > 0 && a[1][0] == '/' ==> b == seq![a[0], "-D"@, a[1]]
            &&& a.len() >= 2 && a[1].len() > 0 && a[1][0] != '-' && (a[1][0] == '~' || a[1].contains(
                '/',
            )) && (forall|i: int|
                2 <= i < a.len() ==> (#[trigger] a[i]) != "-D"@ && a[i] != "--device"@) ==> b.len()
                == a.len() + 1 && b[0] == a[0] && b[1] == "-D"@ && b.skip(2) == a.skip(1)
            &&& (exists|i: int| 2 <= i < a.len() && (#[trigger] a[i]) == "-D"@) ==> b == a
        }),
{
    let a = views(old(args)@);
    reveal_strlit("-");
    reveal_strlit("~");
    if a.len() >= 2 {
        if a[1].len() > 0 {
            assert(a[1].take(1) =~= seq![a[1][0]]);
            assert("-"@ =~= seq!['-'] && "~"@ =~= seq!['~']);
            assert(seq!['-'][0] == '-' && seq!['~'][0] == '~' && seq![a[1][0]][0] == a[1][0]);
            if a[1][0] == '/' {
                assert(a[1].contains('/'));
            }
        }
        let b = a.insert(1, "-D"@);
        assert(b.skip(2) =~= a.skip(1));
        if a.len() == 2 {
            assert(b =~= seq![a[0], "-D"@, a[1]]);
        }
    }
}

/// `tcp://host:port` and `tcp:host:port` are reached over TCP at that address,
/// everything else is a socket's path.
pub proof fn law_endpoints(s: &str, rest: Seq<char>, e: Endpoint<'_>)
    requires
        call_ensures(endpoint_kind, (s,), e),
    ensures
        s@ == "tcp://"@ + rest ==> (e matches Endpoint::Tcp(a) && a@ == rest),
        s@ == "tcp:"@ + rest && (rest.len() == 0 || rest[0] != '/') ==> (e matches Endpoint::Tcp(a)
            && a@ == rest),
        s@.len() > 0 && s@[0] == '/' ==> (e matches Endpoint::Uds(p) && p@ == s@),
{
    reveal_strlit("tcp://");
    reveal_strlit("tcp:");
    if s@ == "tcp://"@ + rest {
        assert(s@.take(6) =~= "tcp://"@);
        assert(s@.skip(6) =~= rest);
    }
    if s@ == "tcp:"@ + rest && (rest.len() == 0 || rest[0] != '/') {
        assert(s@.take(4) =~= "tcp:"@);
        assert(s@.skip(4) =~= rest);
        if starts_with(s@, "tcp://"@) {
            assert(s@.take(6)[4] == '/');
            assert(s@[4] == rest[0]);
        }
    }
    if s@.len() > 0 && s@[0] == '/' {
        if starts_with(s@, "tcp://"@) {
            assert(s@.take(6)[0] == 't');
        }
        if starts_with(s@, "tcp:"@) {
            assert(s@.take(4)[0] == 't');
        }
    }
}

/// The user is asked only on a terminal, and not where that is switched off by
/// the flag or by any value of the variable but an empty one, `0`, `false`, `no`
/// or `off`. A daemon is started unasked only where nothing else was said and
/// none is there.
pub proof fn law_asking_the_user(
    flag: bool,
    env: Option<&str>,
    stdin: bool,
    stderr: bool,
    b: bool,
    forced: bool,
    explicit: bool,
    device: bool,
    device_id: bool,
    alive: bool,
    start: bool,
)
    requires
        call_ensures(interactive_allowed, (flag, env, stdin, stderr), b),
        call_ensures(env_forces_noninteractive, (env,), forced),
        call_ensures(may_autostart, (explicit, device, device_id, b, alive), start),
    ensures
        b <==> !flag && stdin && stderr && !forced,
        env is None ==> !forced,
        env matches Some(v) ==> (forced <==> {
            let w = lower(trim(v@));
            w != ""@ && w != "0"@ && w != "false"@ && w != "no"@ && w != "off"@
        }),
        start <==> !explicit && !device && !device_id && b && !alive,
{
}

/// One more port is offered, behind the others, if and only if it is a USB port
/// and no dial-in node; it goes by its path, with its description if it has one.
pub proof fn law_offering_ports(
    ports: Vec<(String, Option<String>)>,
    more: Vec<(String, Option<String>)>,
    a: Vec<PortChoice>,
    b: Vec<PortChoice>,
    path: Seq<char>,
    desc: Option<Seq<char>>,
)
    requires
        call_ensures(select_port_choices, (ports,), a),
        call_ensures(select_port_choices, (more,), b),
        more@.len() == ports@.len() + 1,
        more@.drop_last() == ports@,
        more@.last().0@ == path,
        opt_view(more@.last().1) == desc,
    ensures
        ports@.len() == 0 ==> a@.len() == 0,
        desc is None || starts_with(path, "/dev/tty."@) ==> choice_views(b@) == choice_views(a@),
        !starts_with(path, "/dev/tty."@) ==> (desc matches Some(d) ==> choice_views(b@)
            == choice_views(a@).push(
            (
                path,
                if d.len() == 0 {
                    path
                } else {
                    path + "  ("@ + d + ")"@
                },
            ),
        )),
{
    lemma_offered_prefix(more@, ports@, ports@.len() as int);
    assert(choice_views(a@).len() == a@.len());
}

proof fn lemma_offered_prefix(
    more: Seq<(String, Option<String>)>,
    ports: Seq<(String, Option<String>)>,
    n: int,
)
    requires
        0 <= n <= ports.len(),
        more.len() == ports.len() + 1,
        more.drop_last() == ports,
    ensures
        crate::client::offered(more, n) == crate::client::offered(ports, n),
    decreases n,
{
    if n > 0 {
        lemma_offered_prefix(more, ports, n - 1);
        assert(more[n - 1] == more.drop_last()[n - 1]);
    }
}

/// A number from 1 to the count selects that item, an empty line the first, and
/// anything else nothing. White space around it does not matter.
pub proof fn law_picking(
    line: &str,
    count: usize,
    n: nat,
    a: Seq<char>,
    b: Seq<char>,
    k: int,
    r: Option<usize>,
)
    requires
        call_ensures(pick_index, (line, count), r),
        forall|i: int| 0 <= i < a.len() ==> #[trigger] a[i] == ' ',
        forall|i: int| 0 <= i < b.len() ==> #[trigger] b[i] == ' ' || b[i] == '\n',
    ensures
        line@ == a + decimal(n) + b && 1 <= n <= count ==> r == Some((n - 1) as usize),
        line@ == a + decimal(n) + b && (n == 0 || n > count) ==> r is None,
        line@ == a + Seq::empty() + b && count > 0 ==> r == Some(0usize),
        count == 0 ==> r is None,
        0 <= k < line@.len() && 'a' <= line@[k] <= 'z' ==> r is None,
        r matches Some(i) ==> i < count,
{
    let d = decimal(n);
    law_decimal_digits(n);
    law_white_space(d[0]);
    law_white_space(d.last());
    assert forall|i: int| 0 <= i < a.len() implies crate::text::is_white(#[trigger] a[i]) by {
        law_white_space(a[i]);
    }
    assert forall|i: int| 0 <= i < b.len() implies crate::text::is_white(#[trigger] b[i]) by {
        law_white_space(b[i]);
    }
    law_trim(a, d, b);
    law_trim(a, Seq::empty(), b);
    law_unsigned(n, count as nat, d, 0);
    if 0 <= k < line@.len() && 'a' <= line@[k] <= 'z' {
        law_white_space(line@[k]);
        lemma_trim_keeps(line@, k);
        let t = trim(line@);
        let j = choose|j: int| 0 <= j < t.len() && t[j] == line@[k];
        law_unsigned(n, count as nat, t, j);
    }
}

/// The user picks a device only where there are several, by id, path and
/// whether it is there; a single port is opened unasked.
pub proof fn law_pickers(
    l: &ListDevicesResult,
    labels: Option<Vec<String>>,
    i: int,
    ports: &Vec<PortChoice>,
    a: AutoStart,
)
    requires
        call_ensures(device_picker, (l,), labels),
        call_ensures(autostart, (ports,), a),
    ensures
        labels is Some <==> l.devices@.len() >= 2,
        labels matches Some(v) ==> v@.len() == l.devices@.len(),
        labels is Some && 0 <= i < l.devices@.len() && l.devices@[i].connected
            ==> labels->Some_0@[i]@ == l.devices@[i].id@ + "  ["@ + l.devices@[i].path@ + "]"@,
        labels is Some && 0 <= i < l.devices@.len() && !l.devices@[i].connected
            ==> labels->Some_0@[i]@ == l.devices@[i].id@ + "  ["@ + l.devices@[i].path@ + "]"@
            + "  (disconnected)"@,
        ports@.len() == 0 ==> a is Fail,
        ports@.len() == 1 ==> (a matches AutoStart::Open(p) && p@ == ports@[0].path@),
        ports@.len() >= 2 ==> a is Ask,
{
    if let Some(v) = labels {
        assert(views(v@).len() == v@.len());
        if 0 <= i < l.devices@.len() {
            assert(views(v@)[i] == v@[i]@);
            reveal_strlit("");
            let x = l.devices@[i].id@ + "  ["@ + l.devices@[i].path@ + "]"@;
            assert(x + ""@ =~= x);
        }
    }
}

/// A running daemon is used for a path if and only if it manages that path,
/// under the id it has there. Daemons are found by their sockets' names.
pub proof fn law_reusing_a_daemon(
    devices: &Vec<DeviceSummary>,
    target: &str,
    id: Option<String>,
    i: int,
    name: &str,
    middle: Seq<char>,
    b: bool,
)
    requires
        call_ensures(managed_device_id, (devices, target), id),
        call_ensures(is_daemon_socket_name, (name,), b),
    ensures
        (forall|j: int| 0 <= j < devices@.len() ==> (#[trigger] devices@[j]).path@ != target@) ==> id
            is None,
        0 <= i < devices@.len() && devices@[i].path@ == target@ && devices@[i].id@.len() > 0 && (
        forall|j: int| 0 <= j < i ==> (#[trigger] devices@[j]).path@ != target@) ==> opt_view(id)
            == Some(devices@[i].id@),
        name@ == "tetherd"@ + middle + ".sock"@ ==> b,
        b ==> starts_with(name@, "tetherd"@) && ends_with(name@, ".sock"@),
{
    if 0 <= i < devices@.len() && devices@[i].path@ == target@ && devices@[i].id@.len() > 0 && (
    forall|j: int| 0 <= j < i ==> (#[trigger] devices@[j]).path@ != target@) {
        lemma_managed_from(devices@, target@, 0, i);
    }
    if name@ == "tetherd"@ + middle + ".sock"@ {
        let n = "tetherd"@.len() as int;
        assert(name@.take(n) =~= "tetherd"@);
        assert(name@.skip(name@.len() - ".sock"@.len()) =~= ".sock"@);
    }
}

proof fn lemma_managed_from(devices: Seq<DeviceSummary>, path: Seq<char>, k: int, i: int)
    requires
        0 <= k <= i < devices.len(),
        devices[i].path@ == path && devices[i].id@.len() > 0,
        forall|j: int| 0 <= j < i ==> (#[trigger] devices[j]).path@ != path,
    ensures
        managed_from(devices, path, k) == Some(devices[i].id@),
    decreases i - k,
{
    if k < i {
        assert(devices[k].path@ != path);
        lemma_managed_from(devices, path, k + 1, i);
    }
}

/// A private daemon is given the device, its baud rate and its socket, and where
/// it is shared the address and the token. Its start is given five seconds.
pub proof fn law_private_daemon(
    device: &str,
    baud: u32,
    socket: &str,
    share: &Option<TcpShare>,
    args: Vec<String>,
    elapsed_ms: u64,
    bound: bool,
    exited: bool,
    s: EmbeddedStep,
)
    requires
        call_ensures(embedded_daemon_args, (device, baud, socket, share), args),
        call_ensures(embedded_step, (elapsed_ms, bound, exited), s),
    ensures
        args@.len() >= 6,
        args@[0]@ == "-D"@ && args@[1]@ == device@,
        args@[2]@ == "-b"@ && args@[3]@ == decimal(baud as nat),
        args@[4]@ == "-s"@ && args@[5]@ == socket@,
        share is None ==> args@.len() == 6,
        share matches Some(x) ==> args@.len() == 10 && args@[6]@ == "--tcp"@ && args@[7]@ == x.bind@
            && args@[8]@ == "--auth-token"@ && args@[9]@ == x.token@,
        s == EmbeddedStep::TimedOut <==> elapsed_ms >= 5000,
        s == EmbeddedStep::Ready <==> elapsed_ms < 5000 && bound,
        s == EmbeddedStep::Exited <==> elapsed_ms < 5000 && !bound && exited,
{
    let v = views(args@);
    assert(v.len() == args@.len());
    assert(v[0] == args@[0]@ && v[1] == args@[1]@ && v[2] == args@[2]@ && v[3] == args@[3]@ && v[4]
        == args@[4]@ && v[5] == args@[5]@);
    if share is Some {
        assert(v[6] == args@[6]@ && v[7] == args@[7]@ && v[8] == args@[8]@ && v[9] == args@[9]@);
    }
}

/// The port is what stands after the last colon. A `-D` value that is no path
/// and is not there gets a hint, and only that.
pub proof fn law_port_and_hint(
    bind: &str,
    host: Seq<char>,
    port: Seq<char>,
    p: String,
    value: &str,
    there: bool,
    hint: String,
)
    requires
        call_ensures(port_of, (bind,), p),
        call_ensures(dash_d_hint, (value, there), hint),
        !port.contains(':'),
    ensures
        bind@ == host + seq![':'] + port ==> p@ == port,
        bind@ == port ==> p@ == port,
        hint@.len() > 0 <==> !value@.contains('/') && !there,
        !value@.contains('/') && !there ==> hint@ == "\n\nhint: `-D "@ + value@
            + "` starts a *new* standalone daemon and opens `"@ + value@
            + "` as a device path — which doesn't exist. To select a device named `"@ + value@
            + "` on an already-running daemon, use lowercase `-d "@ + value@ + "` instead."@,
{
    if bind@ == host + seq![':'] + port {
        let n = host.len() as int;
        assert(bind@[n] == ':');
        assert forall|k: int| n < k < bind@.len() implies #[trigger] bind@[k] != ':' by {
            assert(bind@[k] == port[k - n - 1]);
            assert(port.contains(port[k - n - 1]));
        }
        crate::exec::lemma_after_last_at(bind@, ':', n);
        assert(bind@.skip(n + 1) =~= port);
    }
    if bind@ == port {
        crate::exec::lemma_after_last_none(bind@, ':');
        assert(bind@.skip(0) =~= bind@);
    }
    reveal_strlit("");
    reveal_strlit("\n\nhint: `-D ");
}

// ---------- What commands ask for ----------

/// Each command that needs no session is its own call, with its own values and
/// for the chosen device; without a new value `config` only reads.
pub proof fn law_commands_make_their_calls(
    cmd: &Cmd,
    id: &Option<String>,
    c: Option<DeviceCall>,
    replay: Option<String>,
    needs: bool,
    personality: bool,
)
    requires
        call_ensures(device_call, (cmd, id), c),
        call_ensures(session_replay, (cmd,), replay),
        call_ensures(command_needs_device, (cmd,), needs),
        call_ensures(needs_personality, (cmd,), personality),
    ensures
        cmd is Status ==> c is Some && c->Some_0 is Status,
        cmd is ListDevices ==> c is Some && c->Some_0 is ListDevices,
        cmd is Ports ==> c is Some && c->Some_0 is ListPorts,
        *cmd matches Cmd::Config(a) ==> (if a.baud is None && a.data_bits is None && a.parity is None
            && a.stop_bits is None && a.flow_control is None {
            c is Some && c->Some_0 is Status
        } else {
            c matches Some(DeviceCall::SetDevice(p)) && p.baud == a.baud && p.data_bits
                == a.data_bits && p.parity == a.parity && p.stop_bits == a.stop_bits
                && p.flow_control == a.flow_control && opt_view(p.device_id) == opt_view(*id)
        }),
        *cmd matches Cmd::Break { duration_ms } ==> (c matches Some(DeviceCall::SendBreak(p))
            && p.duration_ms == duration_ms && opt_view(p.device_id) == opt_view(*id)),
        *cmd matches Cmd::Dtr { state } ==> (c matches Some(DeviceCall::SetDtr(p)) && (p.on
            <==> state@ == "on"@) && opt_view(p.device_id) == opt_view(*id)),
        *cmd matches Cmd::Rts { state } ==> (c matches Some(DeviceCall::SetRts(p)) && (p.on
            <==> state@ == "on"@) && opt_view(p.device_id) == opt_view(*id)),
        cmd is Lines ==> (c matches Some(DeviceCall::ReadModemStatus(p)) && opt_view(p.device_id)
            == opt_view(*id)),
        *cmd matches Cmd::Reconnect { nowait, timeout_ms } ==> (c matches Some(
            DeviceCall::Reconnect(p),
        ) && p.wait == !nowait && p.timeout_ms == timeout_ms && opt_view(p.device_id) == opt_view(
            *id,
        )),
        cmd is Disconnect ==> (c matches Some(DeviceCall::Disconnect(p)) && opt_view(p.device_id)
            == opt_view(*id)),
        cmd is Connect ==> (c matches Some(DeviceCall::Connect(p)) && opt_view(p.device_id)
            == opt_view(*id)),
        *cmd matches Cmd::Shell { from } ==> c is None && opt_view(replay) == Some(from@),
        *cmd matches Cmd::Tail { from } ==> c is None && opt_view(replay) == Some(from@),
        cmd is Send || cmd is Expect || cmd is Run || cmd is Exec || cmd is Sync ==> c is None
            && opt_view(replay) == Some("now"@),
        needs <==> !(cmd is Status || cmd is ListDevices || cmd is Ports || cmd is Agents),
        personality <==> cmd is Run || cmd is Exec,
{
}

/// A line is ended as asked: by LF, CR, both, or nothing.
pub proof fn law_line_ends(data: &str, kind: &str, s: String)
    requires
        call_ensures(apply_newline, (data, kind), s),
    ensures
        kind@ == "lf"@ ==> s@ == data@ + seq!['\n'],
        kind@ == "cr"@ ==> s@ == data@ + seq!['\r'],
        kind@ == "crlf"@ ==> s@ == data@ + seq!['\r', '\n'],
        kind@ == "none"@ ==> s@ == data@,
        kind@ != "lf"@ && kind@ != "cr"@ && kind@ != "crlf"@ ==> s@ == data@,
{
    reveal_strlit("lf");
    reveal_strlit("cr");
    reveal_strlit("crlf");
    reveal_strlit("none");
    reveal_strlit("\n");
    reveal_strlit("\r");
    reveal_strlit("\r\n");
    reveal_strlit("");
    assert("lf"@[0] == 'l' && "cr"@[0] == 'c' && "lf"@.len() == 2 && "cr"@.len() == 2 && "crlf"@.len()
        == 4 && "none"@.len() == 4 && "none"@[0] == 'n' && "crlf"@[0] == 'c');
    assert("\n"@ =~= seq!['\n'] && "\r"@ =~= seq!['\r'] && "\r\n"@ =~= seq!['\r', '\n']);
    assert(data@ + ""@ =~= data@);
}

/// A `run` sends its data with its terminator and takes its options over as they
/// were given; its pattern is the one given or the device's prompt, and is never
/// made up; its terminator is the one given or the device's, but on a U-Boot
/// console always CR.
pub proof fn law_run_asks_for_its_command(
    session_id: &str,
    args: &RunArgs,
    until: &str,
    newline: &str,
    p: RunParams,
    shell: &str,
    device_newline: &Option<String>,
    nl: String,
    prompt: &Option<String>,
    u: Result<String, CliError>,
)
    requires
        call_ensures(run_params, (session_id, args, until, newline), p),
        call_ensures(run_newline, (shell, &args.newline, device_newline), nl),
        call_ensures(run_until, (&args.until, prompt), u),
    ensures
        p.session_id@ == session_id@ && p.data is None,
        newline@ == "cr"@ ==> opt_view(p.data_text) == Some(args.data@ + seq!['\r']),
        newline@ == "lf"@ ==> opt_view(p.data_text) == Some(args.data@ + seq!['\n']),
        newline@ == "none"@ ==> opt_view(p.data_text) == Some(args.data@),
        p.until.pattern@ == until@ && p.until.regex == !args.literal && p.until.strip_ansi
            == args.strip_ansi,
        p.timeout_ms == Some(args.timeout_ms) && p.preempt@ == args.preempt@ && p.strip_echo
            == args.strip_echo,
        p.max_bytes is None && p.max_output_bytes == Some(args.max_output_bytes),
        shell@ == "uboot"@ ==> nl@ == "cr"@,
        shell@ != "uboot"@ ==> (args.newline matches Some(n) ==> nl@ == n@),
        shell@ != "uboot"@ && args.newline is None ==> (device_newline matches Some(n) ==> nl@
            == n@),
        shell@ != "uboot"@ && args.newline is None && device_newline is None ==> nl@ == "none"@,
        args.until matches Some(x) ==> (u matches Ok(s) && s@ == x@),
        args.until is None ==> (prompt matches Some(x) ==> (u matches Ok(s) && s@ == x@)),
        args.until is None && prompt is None ==> u is Err,
{
    reveal_strlit("lf");
    reveal_strlit("cr");
    reveal_strlit("crlf");
    reveal_strlit("none");
    reveal_strlit("\n");
    reveal_strlit("\r");
    reveal_strlit("");
    assert("lf"@[0] == 'l' && "cr"@[0] == 'c' && "lf"@.len() == 2 && "cr"@.len() == 2 && "crlf"@.len()
        == 4 && "none"@.len() == 4 && "none"@[0] == 'n' && "crlf"@[0] == 'c');
    assert("\n"@ =~= seq!['\n'] && "\r"@ =~= seq!['\r']);
    assert(args.data@ + ""@ =~= args.data@);
}

/// `send` and `expect` take over what was typed: base64 as it is, text with its
/// terminator; a literal pattern is no regular expression. A session is attached
/// for writing, at the point asked for.
pub proof fn law_send_and_expect_ask(
    session_id: &str,
    data: &str,
    is_base64: bool,
    newline: &str,
    p: SendParams,
    pattern: &str,
    timeout_ms: u32,
    literal: bool,
    strip_ansi: bool,
    limit: u64,
    q: ExpectParams,
    replay: &str,
    device_id: &Option<String>,
    a: AttachParams,
    name: &str,
    token: &Option<String>,
    h: HelloParams,
)
    requires
        call_ensures(send_params, (session_id, data, is_base64, newline), p),
        call_ensures(
            expect_params,
            (session_id, pattern, timeout_ms, literal, strip_ansi, limit),
            q,
        ),
        call_ensures(attach_params, (replay, device_id), a),
        call_ensures(hello_params, (name, token), h),
    ensures
        p.session_id@ == session_id@ && !p.eat_echo,
        is_base64 ==> opt_view(p.data) == Some(data@) && p.data_text is None,
        !is_base64 ==> p.data is None && p.data_text is Some && starts_with(
            p.data_text->Some_0@,
            data@,
        ),
        q.session_id@ == session_id@ && q.pattern@ == pattern@ && q.regex == !literal,
        q.timeout_ms == Some(timeout_ms) && q.strip_ansi == strip_ansi && q.from_seq is None,
        q.strip_echo is None && q.max_output_bytes == Some(limit),
        a.mode@ == "rw"@ && a.session_id is None && a.flow_control@ == "drop_oldest"@,
        a.replay matches ReplaySpec::Named(r) && r@ == replay@,
        opt_view(a.device_id) == opt_view(*device_id),
        h.protocol_version@ == "1"@ && opt_view(h.auth_token) == opt_view(*token) && h.client.name@
            == name@,
{
    if !is_base64 {
        let t = p.data_text->Some_0@;
        assert(t.take(data@.len() as int) =~= data@);
    }
}

/// A status for a chosen device has that device at the top and is refused for a
/// device that is not there; without a choice the default device is meant.
pub proof fn law_choosing_a_device(
    status: StatusResult,
    want: &str,
    r: Result<StatusResult, CliError>,
    i: int,
    chosen: &Option<String>,
    row: Option<usize>,
)
    requires
        call_ensures(select_status, (status, want), r),
        call_ensures(target_row, (&status, chosen), row),
        forall|a: int, b: int|
            0 <= a < b < status.devices@.len() ==> (#[trigger] status.devices@[a]).id@ != (
            #[trigger] status.devices@[b]).id@,
    ensures
        0 <= i < status.devices@.len() && status.devices@[i].id@ == want@ ==> (r matches Ok(s)
            && s.device == status.devices@[i].device && s.buffer == status.devices@[i].buffer
            && s.lock == status.devices@[i].lock && s.sessions@ == status.devices@[i].sessions@
            && s.devices == status.devices),
        (forall|k: int| 0 <= k < status.devices@.len() ==> (#[trigger] status.devices@[k]).id@
            != want@) ==> r is Err,
        row matches Some(k) ==> k < status.devices@.len() && (chosen matches Some(c)
            ==> status.devices@[k as int].id@ == c@) && (chosen is None
            ==> status.default_device is Some && status.devices@[k as int].id@
            == status.default_device->Some_0@),
        0 <= i < status.devices@.len() && (chosen matches Some(c) && status.devices@[i].id@ == c@)
            ==> row == Some(i as usize),
{
    if 0 <= i < status.devices@.len() && status.devices@[i].id@ == want@ {
        assert(is_row_of(status.devices@, want@, i));
        if let Ok(s) = r {
            let k = choose|k: int|
                #[trigger] is_row_of(status.devices@, want@, k) && s.device
                    == status.devices@[k].device && s.buffer == status.devices@[k].buffer && s.lock
                    == status.devices@[k].lock && s.sessions@ == status.devices@[k].sessions@;
            if k < i {
                assert(status.devices@[k].id@ != status.devices@[i].id@);
            } else if i < k {
                assert(status.devices@[i].id@ != status.devices@[k].id@);
            }
        }
    }
    if chosen is Some && 0 <= i < status.devices@.len() && status.devices@[i].id@
        == chosen->Some_0@ {
        assert(is_row_of(status.devices@, chosen->Some_0@, i));
        if let Some(k) = row {
            if k < i {
                assert(status.devices@[k as int].id@ != status.devices@[i].id@);
            } else if i < k {
                assert(status.devices@[i].id@ != status.devices@[k as int].id@);
            }
        }
    }
}

/// `sync` listens in windows of the idle time, never past its limit, and is done
/// once something was heard and then nothing for that long.
pub proof fn law_sync(
    elapsed_ms: u64,
    timeout_ms: u32,
    idle_ms: u32,
    w: Option<u32>,
    silent_ms: u64,
    heard: bool,
    done: bool,
    session_id: &str,
    window: u32,
    p: ExpectParams,
)
    requires
        call_ensures(sync_window, (elapsed_ms, timeout_ms, idle_ms), w),
        call_ensures(sync_idle, (silent_ms, idle_ms, heard), done),
        call_ensures(sync_params, (session_id, window), p),
    ensures
        w is Some <==> elapsed_ms < timeout_ms,
        w matches Some(x) ==> x <= idle_ms && elapsed_ms + x <= timeout_ms && (x == idle_ms
            || elapsed_ms + x == timeout_ms),
        done <==> heard && silent_ms >= idle_ms,
        p.regex && p.pattern@ == "(?s).+"@ && p.timeout_ms == Some(window) && p.session_id@
            == session_id@ && p.from_seq is None && !p.strip_ansi && p.max_output_bytes is None,
{
}

/// A reconnect that left the device usable is reported as such and any other as
/// a failure with its reason.
pub proof fn law_reconnect_report(
    connected: bool,
    reconnected: bool,
    reason: &Option<String>,
    timeout_ms: u32,
    r: (String, bool),
)
    requires
        call_ensures(report_reconnect, (connected, reconnected, reason, timeout_ms), r),
    ensures
        r.1 <==> connected || reconnected,
        connected ==> r.0@ == "tether: device reopened"@,
        !connected && reconnected ==> r.0@
            == "tether: reconnect succeeded but device state is uncertain"@,
        !connected && !reconnected && reason is None ==> r.0@
            == "tether: reconnect requested but device is still disconnected after "@ + decimal(
            timeout_ms as nat,
        ) + "ms"@ + ""@,
        !connected && !reconnected ==> (*reason matches Some(why) ==> r.0@
            == "tether: reconnect requested but device is still disconnected after "@ + decimal(
            timeout_ms as nat,
        ) + "ms"@ + (" ("@ + why@ + ")"@)),
{
}

// ---------- The last line that was heard ----------

proof fn lemma_split_push(t: Seq<char>, c: char, f: Seq<char>)
    requires
        !f.contains(c),
    ensures
        split(t + seq![c] + f, c) == split(t, c).push(f),
    decreases t.len(),
{
    let s = t + seq![c] + f;
    lemma_find_char(t, c);
    let n = crate::text::find_char(t, c) as int;
    assert forall|k: int| 0 <= k < n implies #[trigger] s[k] != c by {
        assert(s[k] == t[k]);
    }
    if n < t.len() {
        assert(s[n] == t[n]);
        lemma_find_char_at(s, c, n);
        let rest = t.skip(n + 1);
        assert(s.take(n) =~= t.take(n));
        assert(s.skip(n + 1) =~= rest + seq![c] + f);
        lemma_split_push(rest, c, f);
        assert(seq![t.take(n)] + split(rest, c).push(f) =~= (seq![t.take(n)] + split(
            rest,
            c,
        )).push(f));
    } else {
        assert(s[n] == c);
        lemma_find_char_at(s, c, n);
        assert(s.take(n) =~= t);
        assert(s.skip(n + 1) =~= f);
        assert forall|k: int| 0 <= k < f.len() implies #[trigger] f[k] != c by {
            assert(f.contains(f[k]));
        }
        lemma_find_char_at(f, c, f.len() as int);
        assert(split(f, c) == seq![f]);
        assert(split(t, c) == seq![t]);
        assert(split(s, c) =~= split(t, c).push(f));
    }
}

proof fn lemma_last_nonblank_push(pieces: Seq<Seq<char>>, f: Seq<char>, n: int)
    requires
        0 <= n <= pieces.len(),
        n == pieces.len() && n > 0 ==> (pieces[n - 1].len() == 0 || pieces[n - 1].last() != '\r'),
    ensures
        crate::command::last_nonblank(pieces.push(f), n) == crate::command::last_nonblank(
            pieces,
            n,
        ),
    decreases n,
{
    if n > 0 {
        assert(pieces.push(f)[n - 1] == pieces[n - 1]);
        lemma_last_nonblank_push(pieces, f, n - 1);
    }
}

/// The prompt is the last line that is not blank: one more line takes its place
/// unless it is blank, and then nothing changes. A CR before the line break is
/// no part of a line.
pub proof fn law_last_line(
    text: &str,
    longer: &str,
    f: Seq<char>,
    k: int,
    a: String,
    b: String,
)
    requires
        call_ensures(last_line, (text,), a),
        call_ensures(last_line, (longer,), b),
        !f.contains('\n'),
        text@.len() == 0 || text@.last() != '\r',
        longer@ == text@ + seq!['\n'] + f,
    ensures
        0 <= k < f.len() && '!' <= f[k] <= '~' ==> b@ == f,
        (forall|i: int| 0 <= i < f.len() ==> #[trigger] f[i] == ' ') ==> b@ == a@,
        !text@.contains('\n') && 0 <= k < text@.len() && '!' <= text@[k] <= '~' ==> a@ == text@,
        text@.len() == 0 ==> a@.len() == 0,
{
    let t = text@;
    let pieces = split(t, '\n');
    law_split_rejoins(t, '\n');
    lemma_split_push(t, '\n', f);
    let n = pieces.len() as int;
    let more = pieces.push(f);
    assert(more[n] == f);
    if 0 <= k < f.len() && '!' <= f[k] <= '~' {
        law_white_space(f[k]);
        lemma_trim_keeps(f, k);
    }
    lemma_last_piece(t, '\n');
    if forall|i: int| 0 <= i < f.len() ==> #[trigger] f[i] == ' ' {
        assert forall|i: int| 0 <= i < f.len() implies crate::text::is_white(#[trigger] f[i]) by {
            law_white_space(f[i]);
        }
        let none = Seq::<char>::empty();
        assert(f + none + none =~= f);
        law_trim(f, none, none);
        lemma_last_nonblank_push(pieces, f, n);
    }
    if !t.contains('\n') {
        assert forall|i: int| 0 <= i < t.len() implies #[trigger] t[i] != '\n' by {
            assert(t.contains(t[i]));
        }
        lemma_find_char_at(t, '\n', t.len() as int);
        assert(pieces == seq![t]);
        if 0 <= k < t.len() && '!' <= t[k] <= '~' {
            law_white_space(t[k]);
            lemma_trim_keeps(t, k);
        }
        if t.len() == 0 {
            reveal_strlit("");
            let none = Seq::<char>::empty();
            assert(t =~= none);
            assert(none + none + none =~= none);
            law_trim(none, none, none);
            assert(crate::command::line_text(pieces, 0) == t);
            assert(crate::command::last_nonblank(pieces, 1) == crate::command::last_nonblank(
                pieces,
                0,
            ));
        }
    } else if t.len() == 0 {
        assert(false);
    }
}

/// The last piece of a text ends as the text does.
proof fn lemma_last_piece(t: Seq<char>, c: char)
    ensures
        split(t, c).len() > 0,
        split(t, c).last().len() > 0 ==> t.len() > 0 && split(t, c).last().last() == t.last(),
    decreases t.len(),
{
    lemma_find_char(t, c);
    let n = crate::text::find_char(t, c) as int;
    if n < t.len() {
        let rest = t.skip(n + 1);
        lemma_last_piece(rest, c);
        assert(split(t, c).last() == split(rest, c).last());
    }
}

// ---------- What is shown ----------

/// Lists have one line for each entry, in order, with what it is about.
pub proof fn law_device_lines(l: &ListDevicesResult, lines: Vec<String>, i: int)
    requires
        call_ensures(device_lines, (l,), lines),
        0 <= i < l.devices@.len(),
    ensures
        lines@.len() == l.devices@.len(),
        ({
            let d = l.devices@[i];
            let id = if d.id@.len() >= 10 {
                d.id@
            } else {
                d.id@ + Seq::new((10 - d.id@.len()) as nat, |k: int| ' ')
            };
            let state = if d.explicitly_disconnected {
                "disconnected (explicit)"@
            } else if d.connected {
                "connected"@
            } else {
                "disconnected"@
            };
            let framing = decimal(d.data_bits as nat).push(crate::shell::capital(d.parity@))
                + decimal(d.stop_bits as nat);
            let shown = id + "  "@ + d.path@ + " @ "@ + decimal(d.baud as nat) + " "@ + framing
                + " flow="@ + d.flow_control@ + "  ["@ + state + "]"@;
            lines@[i]@ == (if d.id@ == l.default_device@ {
                shown + " (default)"@
            } else {
                shown
            })
        }),
{
    assert(views(lines@).len() == lines@.len());
    assert(views(lines@)[i] == lines@[i]@);
    let d = l.devices@[i];
    reveal_strlit("");
    let id = crate::text::padded(d.id@, 10);
    let state = crate::render::connection_status(d);
    let framing = decimal(d.data_bits as nat).push(crate::shell::capital(d.parity@)) + decimal(
        d.stop_bits as nat,
    );
    let shown = id + "  "@ + d.path@ + " @ "@ + decimal(d.baud as nat) + " "@ + framing + " flow="@
        + d.flow_control@ + "  ["@ + state + "]"@;
    assert(shown + ""@ =~= shown);
    assert(id + "  "@ + d.path@ + " @ "@ + decimal(d.baud as nat) + " "@ + decimal(
        d.data_bits as nat,
    ).push(crate::shell::capital(d.parity@)) + decimal(d.stop_bits as nat) + " flow="@
        + d.flow_control@ + "  ["@ + state + "]"@ =~= shown);
    assert(shown + " (default)"@ =~= id + "  "@ + d.path@ + " @ "@ + decimal(d.baud as nat) + " "@
        + decimal(d.data_bits as nat).push(crate::shell::capital(d.parity@)) + decimal(
        d.stop_bits as nat,
    ) + " flow="@ + d.flow_control@ + "  ["@ + state + "]"@ + " (default)"@);
}

/// A parity's letter is the first of its name as a capital.
pub proof fn law_parity_letter(word: &str, c: char)
    requires
        call_ensures(crate::shell::capital_of, (word,), c),
    ensures
        word@ == "none"@ ==> c == 'N',
        word@ == "odd"@ ==> c == 'O',
        word@ == "even"@ ==> c == 'E',
        word@.len() == 0 ==> c == '?',
{
    reveal_strlit("none");
    reveal_strlit("odd");
    reveal_strlit("even");
    assert("none"@[0] == 'n' && "odd"@[0] == 'o' && "even"@[0] == 'e');
}

/// A configuration is shown line by line, and the modem lines as ones and zeros.
pub proof fn law_config_and_lines(
    d: &DeviceInfo,
    lines: Vec<String>,
    m: &ReadModemStatusResult,
    s: String,
)
    requires
        call_ensures(config_lines, (d,), lines),
        call_ensures(modem_line, (m,), s),
    ensures
        lines@.len() == 5,
        lines@[0]@ == "path:         "@ + d.path@,
        lines@[1]@ == "baud:         "@ + decimal(d.baud as nat),
        lines@[2]@ == "framing:      "@ + decimal(d.data_bits as nat).push(
            crate::shell::capital(d.parity@),
        ) + decimal(d.stop_bits as nat),
        lines@[3]@ == "flow_control: "@ + d.flow_control@,
        d.connected ==> lines@[4]@ == "connected:    "@ + "true"@,
        !d.connected ==> lines@[4]@ == "connected:    "@ + "false"@,
        s@ == "CTS="@ + (if m.cts {
            "1"@
        } else {
            "0"@
        }) + "  DSR="@ + (if m.dsr {
            "1"@
        } else {
            "0"@
        }) + "  RI="@ + (if m.ri {
            "1"@
        } else {
            "0"@
        }) + "  DCD="@ + (if m.dcd {
            "1"@
        } else {
            "0"@
        }),
{
    let v = views(lines@);
    assert(v.len() == lines@.len());
    assert(v[0] == lines@[0]@ && v[1] == lines@[1]@ && v[2] == lines@[2]@ && v[3] == lines@[3]@ && v[4]
        == lines@[4]@);
}

/// Ports are shown in order with what is known of them.
pub proof fn law_port_lines(ports: &Vec<PortInfo>, lines: Vec<String>, i: int)
    requires
        call_ensures(port_lines, (ports,), lines),
        0 <= i < ports@.len(),
    ensures
        lines@.len() == ports@.len(),
        starts_with(lines@[i]@, ports@[i].path@ + "  ("@ + ports@[i].kind@ + ")"@),
        ports@[i].manufacturer is None && ports@[i].product is None && ports@[i].serial_number
            is None && ports@[i].vid is None ==> lines@[i]@ == ports@[i].path@ + "  ("@
            + ports@[i].kind@ + ")"@,
        ports@[i].manufacturer is None && ports@[i].serial_number is None && ports@[i].vid is None
            ==> (ports@[i].product matches Some(x) ==> lines@[i]@ == ports@[i].path@ + "  ("@
            + ports@[i].kind@ + ")  "@ + ("product="@ + x@)),
        ports@[i].manufacturer is None && ports@[i].serial_number is None && ports@[i].product
            is None && ports@[i].vid is Some && ports@[i].pid is Some ==> lines@[i]@
            == ports@[i].path@ + "  ("@ + ports@[i].kind@ + ")  "@ + ("usb="@
            + ports@[i].vid->Some_0@ + ":"@ + ports@[i].pid->Some_0@),
{
    let p = ports@[i];
    assert(views(lines@).len() == lines@.len());
    assert(views(lines@)[i] == lines@[i]@);
    let head = p.path@ + "  ("@ + p.kind@ + ")"@;
    let s = lines@[i]@;
    reveal_strlit(")");
    reveal_strlit(")  ");
    assert(")  "@.take(1) =~= ")"@);
    let details = crate::render::port_details(p);
    if details.len() == 0 {
        assert(s.take(head.len() as int) =~= head);
    } else {
        let long = p.path@ + "  ("@ + p.kind@ + ")  "@;
        assert(long.take(head.len() as int) =~= head);
        assert(s.take(head.len() as int) =~= head);
    }
    let none = Seq::<Seq<char>>::empty();
    if p.manufacturer is None && p.serial_number is None && p.vid is None && p.product is Some {
        assert(details =~= seq!["product="@ + p.product->Some_0@]);
    }
    if p.manufacturer is None && p.serial_number is None && p.product is None && p.vid is Some
        && p.pid is Some {
        assert(details =~= seq!["usb="@ + p.vid->Some_0@ + ":"@ + p.pid->Some_0@]);
    }
    if p.manufacturer is None && p.serial_number is None && p.product is None && p.vid is None {
        assert(details =~= none);
    }
}

/// Output is what the captured bytes say; a line break is added where it lacks
/// one; a summary is given on a terminal, when something was cut off, and after
/// a command that did not succeed.
pub proof fn law_showing_results(
    before_b64: &str,
    t: Option<String>,
    text: &str,
    fine: bool,
    lacks: bool,
    truncated: bool,
    terminal: bool,
    shows: bool,
    status: Option<u8>,
    shows_exec: bool,
    quoted: &str,
    duration: Option<u64>,
    original: Option<u64>,
    summary: String,
    exec: String,
    bytes: Seq<u8>,
)
    requires
        call_ensures(captured_text, (before_b64,), t),
        call_ensures(lacks_newline, (text, fine), lacks),
        call_ensures(shows_match_summary, (truncated, terminal), shows),
        call_ensures(shows_exec_summary, (status, truncated, terminal), shows_exec),
        call_ensures(match_summary_text, (quoted, duration, truncated, original), summary),
        call_ensures(exec_summary, (status, duration, truncated, original), exec),
    ensures
        crate::encoding::carries(before_b64@, bytes) ==> opt_view(t) == Some(lossy_text(bytes)),
        crate::encoding::carries(before_b64@, bytes) && valid_utf8(bytes) ==> opt_view(t) == Some(
            decode_utf8(bytes),
        ),
        text@.len() > 0 ==> (lacks <==> text@.last() != '\n'),
        text@.len() == 0 ==> lacks == !fine,
        shows <==> truncated || terminal,
        shows_exec <==> truncated || terminal || status != Some(0u8),
        duration is None && !truncated ==> summary@ == "[matched: "@ + quoted@ + "]"@,
        duration is None && !truncated ==> (status matches Some(n) ==> exec@ == "[exit "@ + decimal(
            n as nat,
        ) + "]"@),
        duration is None && !truncated && status is None ==> exec@ == "[exit "@ + "unknown"@ + "]"@,
        !truncated ==> (duration matches Some(d) ==> summary@ == "[matched: "@ + quoted@ + (", "@
            + decimal(d as nat) + "ms"@ + "]"@)),
        truncated && duration is None ==> (original matches Some(n) ==> summary@ == "[matched: "@
            + quoted@ + (", truncated from "@ + decimal(n as nat) + "B"@ + "]"@)),
{
    reveal_strlit("");
    reveal_strlit("\n");
    if text@.len() > 0 {
        let n = text@.len() as int;
        assert(text@.skip(n - 1) =~= seq![text@.last()]);
        assert("\n"@ =~= seq!['\n']);
        assert(seq![text@.last()][0] == text@.last() && seq!['\n'][0] == '\n');
    }
    let e = ""@;
    assert(e + e + "]"@ =~= "]"@);
    if let Some(d) = duration {
        let x = ", "@ + decimal(d as nat) + "ms"@;
        assert(x + e + "]"@ =~= x + "]"@);
    }
    if let Some(n) = original {
        let x = ", truncated from "@ + decimal(n as nat) + "B"@;
        assert(e + x + "]"@ =~= x + "]"@);
    }
}

/// A client takes the bytes of notifications for its own session and of those
/// for nobody in particular, and no others.
pub proof fn law_taking_notifications(
    to: &Option<String>,
    data: &Option<String>,
    sid: &str,
    bytes: Option<Vec<u8>>,
    sent: Seq<u8>,
)
    requires
        call_ensures(notified_bytes, (to, data, sid), bytes),
        *data matches Some(d) && crate::encoding::carries(d@, sent),
    ensures
        to is None ==> (bytes matches Some(b) && b@ == sent),
        *to matches Some(t) ==> (if t@ == sid@ {
            bytes matches Some(b) && b@ == sent
        } else {
            bytes is None
        }),
{
}

// ---------- The shell ----------

/// After Ctrl-A each letter, in either case, is its command; before it every
/// byte is for the device.
pub proof fn law_shell_keys(s: &mut ShellState, b: u8, k: Key)
    requires
        call_ensures(ShellState::feed, (s, b), k),
    ensures
        !old(s).escape_pending && b != 1 ==> k == Key::Noted && final(s).typed@ == old(
            s).typed@.push(b) && !final(s).escape_pending,
        !old(s).escape_pending && b == 1 ==> k == Key::Noted && final(s).typed@ == old(s).typed@
            && final(s).escape_pending,
        old(s).escape_pending ==> !final(s).escape_pending,
        old(s).escape_pending && b == 1 ==> k == Key::Noted && final(s).typed@ == old(
            s).typed@.push(1),
        old(s).escape_pending && b != 1 ==> final(s).typed@ == old(s).typed@,
        old(s).escape_pending ==> {
            &&& b == 0x71 || b == 0x51 <==> k == Key::Quit
            &&& b == 0x3f || b == 0x68 || b == 0x48 <==> k == Key::Help
            &&& b == 0x63 || b == 0x43 <==> k == Key::Command(ShellCommand::Config)
            &&& b == 0x76 || b == 0x56 <==> k == Key::Command(ShellCommand::Ports)
            &&& b == 0x62 || b == 0x42 <==> k == Key::Command(ShellCommand::Break)
            &&& b == 0x6c || b == 0x4c <==> k == Key::Command(ShellCommand::Lines)
            &&& b == 0x64 || b == 0x44 <==> k == Key::Command(ShellCommand::Dtr(!old(s).dtr_on))
            &&& b == 0x72 || b == 0x52 <==> k == Key::Command(ShellCommand::Rts(!old(s).rts_on))
            &&& k == Key::Command(ShellCommand::Dtr(!old(s).dtr_on)) ==> final(s).dtr_on == !old(
                s).dtr_on
            &&& k == Key::Command(ShellCommand::Rts(!old(s).rts_on)) ==> final(s).rts_on == !old(
                s).rts_on
        },
{
    let view = final(s)@;
    assert(view.typed == final(s).typed@ && view.escape_pending == final(s).escape_pending
        && view.dtr_on == final(s).dtr_on && view.rts_on == final(s).rts_on);
}

/// What was typed is taken out once and in order.
pub proof fn law_shell_takes_what_was_typed(s: &mut ShellState, bytes: Vec<u8>)
    requires
        call_ensures(ShellState::take_typed, (s,), bytes),
    ensures
        bytes@ == old(s).typed@,
        final(s).typed@.len() == 0,
        final(s).escape_pending == old(s).escape_pending,
        final(s).dtr_on == old(s).dtr_on && final(s).rts_on == old(s).rts_on,
{
    let view = final(s)@;
    assert(view.typed == final(s).typed@ && view.escape_pending == final(s).escape_pending
        && view.dtr_on == final(s).dtr_on && view.rts_on == final(s).rts_on);
}

/// The shell makes the call that its key stands for, with the level toggled to
/// or a pulse of 250 ms, and takes a failed toggle back.
pub proof fn law_shell_calls(c: ShellCommand, call: DeviceCall)
    requires
        call_ensures(call_of, (c,), call),
    ensures
        c == ShellCommand::Config ==> call is Status,
        c == ShellCommand::Ports ==> call is ListPorts,
        c == ShellCommand::Break ==> (call matches DeviceCall::SendBreak(p) && p.duration_ms == 250),
        c matches ShellCommand::Dtr(on) ==> (call matches DeviceCall::SetDtr(p) && p.on == on),
        c matches ShellCommand::Rts(on) ==> (call matches DeviceCall::SetRts(p) && p.on == on),
        c == ShellCommand::Lines ==> call is ReadModemStatus,
{
}

/// A failed toggle is taken back and nothing else is touched.
pub proof fn law_shell_undoes(s: &mut ShellState, c: ShellCommand)
    requires
        call_ensures(ShellState::undo, (s, c), ()),
    ensures
        c matches ShellCommand::Dtr(on) ==> final(s).dtr_on == !on && final(s).rts_on == old(
            s).rts_on,
        c matches ShellCommand::Rts(on) ==> final(s).rts_on == !on && final(s).dtr_on == old(
            s).dtr_on,
        !(c is Dtr) && !(c is Rts) ==> final(s).dtr_on == old(s).dtr_on && final(s).rts_on == old(
            s).rts_on,
        final(s).typed@ == old(s).typed@,
{
    let view = final(s)@;
    assert(view.typed == final(s).typed@ && view.dtr_on == final(s).dtr_on && view.rts_on == final(
        s).rts_on);
}

/// What the shell says between its brackets: the configuration, the levels, and
/// what failed and why.
pub proof fn law_shell_texts(
    d: &DeviceInfo,
    config: String,
    m: &ReadModemStatusResult,
    lines: String,
    name: &str,
    on: bool,
    level: String,
    c: ShellCommand,
    error: &Option<String>,
    failure: String,
)
    requires
        call_ensures(config_text, (d,), config),
        call_ensures(lines_text, (m,), lines),
        call_ensures(line_text, (name, on), level),
        call_ensures(failure_text, (c, error), failure),
    ensures
        config@ == "\r\n[config: "@ + decimal(d.baud as nat) + " "@ + decimal(
            d.data_bits as nat,
        ).push(crate::shell::capital(d.parity@)) + decimal(d.stop_bits as nat) + " flow="@
            + d.flow_control@ + "]\r\n"@,
        lines@ == "\r\n[lines: CTS="@ + (if m.cts {
            "1"@
        } else {
            "0"@
        }) + " DSR="@ + (if m.dsr {
            "1"@
        } else {
            "0"@
        }) + " RI="@ + (if m.ri {
            "1"@
        } else {
            "0"@
        }) + " DCD="@ + (if m.dcd {
            "1"@
        } else {
            "0"@
        }) + "]\r\n"@,
        on ==> level@ == "\r\n["@ + name@ + ": "@ + "asserted"@ + "]\r\n"@,
        !on ==> level@ == "\r\n["@ + name@ + ": "@ + "deasserted"@ + "]\r\n"@,
        c is Dtr ==> (*error matches Some(e) ==> failure@ == "\r\n["@ + "DTR"@ + " error: "@ + e@
            + "]\r\n"@),
        c is Rts ==> (*error matches Some(e) ==> failure@ == "\r\n["@ + "RTS"@ + " error: "@ + e@
            + "]\r\n"@),
        c is Break && error is None ==> failure@ == "\r\n["@ + "break"@ + ": timeout]\r\n"@,
        c is Config && error is None ==> failure@ == "\r\n["@ + "config"@ + ": timeout]\r\n"@,
        c is Ports && error is None ==> failure@ == "\r\n["@ + "list_ports"@ + ": timeout]\r\n"@,
        c is Lines && error is None ==> failure@ == "\r\n["@ + "lines"@ + ": timeout]\r\n"@,
{
}

/// A private daemon is shared only where asked for, under the token given or a
/// random one of 128 bits; its files are its own by process and time.
pub proof fn law_sharing(
    bind: &Option<String>,
    token: &Option<String>,
    s: Option<TcpShare>,
    pid: u32,
    nonce: u32,
    ending: &str,
    path: String,
    product: &Option<String>,
    maker: &Option<String>,
    desc: String,
)
    requires
        call_ensures(tcp_share, (bind, token), s),
        call_ensures(private_path, (pid, nonce, ending), path),
        call_ensures(port_description, (product, maker), desc),
    ensures
        s is Some <==> bind is Some,
        s is Some ==> s->Some_0.bind@ == bind->Some_0@,
        s is Some && token is Some ==> s->Some_0.token@ == token->Some_0@,
        s is Some && token is None ==> s->Some_0.token@.len() == 32,
        path@ == "/tmp/tether-"@ + decimal(pid as nat) + "-"@ + decimal(nonce as nat) + ending@,
        product matches Some(p) ==> desc@ == p@,
        product is None ==> (maker matches Some(m) ==> desc@ == m@),
        product is None && maker is None ==> desc@.len() == 0,
{
    reveal_strlit("");
}

/// Choices are numbered from 1 in their order, under the title.
pub proof fn law_menus(title: &str, labels: &Vec<String>, lines: Vec<String>, i: int)
    requires
        call_ensures(menu_lines, (title, labels), lines),
        0 <= i < labels@.len(),
    ensures
        lines@.len() == labels@.len() + 1,
        lines@[0]@ == title@,
        lines@[i + 1]@ == "  "@ + decimal((i + 1) as nat) + ") "@ + labels@[i]@,
{
    let v = views(lines@);
    assert(v.len() == lines@.len());
    assert(v[0] == lines@[0]@);
    assert(v[i + 1] == lines@[i + 1]@);
}

/// What is heard is added behind what was heard before: the bytes before a
/// match and the match. The prompt is read off all of it.
pub proof fn law_hearing(
    heard: &mut Vec<u8>,
    before: Option<Vec<u8>>,
    match_text: &str,
    all: &Vec<u8>,
    prompt: String,
    text: &str,
    last: String,
)
    requires
        call_ensures(heard_with, (heard, before, match_text), ()),
        call_ensures(prompt_candidate, (all,), prompt),
        call_ensures(last_line, (text,), last),
        valid_utf8(all@),
        text@ == decode_utf8(all@),
    ensures
        before matches Some(b) ==> final(heard)@ == old(heard)@ + b@ + encode_utf8(match_text@),
        before is None ==> final(heard)@ == old(heard)@ + encode_utf8(match_text@),
        prompt@ == last@,
{
    assert(old(heard)@ + Seq::<u8>::empty() =~= old(heard)@);
}

/// What the client says of a wait that timed out, of a device's event, and of a
/// `connect`.
pub proof fn law_short_reports(
    timeout_ms: u32,
    quoted: &str,
    waited: String,
    kind: &str,
    detail: &str,
    event: String,
    connected: bool,
    report: &'static str,
)
    requires
        call_ensures(wait_timeout_text, (timeout_ms, quoted), waited),
        call_ensures(device_event_text, (kind, detail), event),
        call_ensures(report_connect, (connected,), report),
    ensures
        waited@ == "tether: timeout after "@ + decimal(timeout_ms as nat) + "ms waiting for "@
            + quoted@,
        detail@.len() == 0 ==> event@ == "[device "@ + kind@ + "]"@,
        detail@.len() > 0 ==> event@ == "[device "@ + kind@ + ": "@ + detail@ + "]"@,
        connected ==> report@ == "tether: device reopened"@,
        !connected ==> report@ == "tether: connect requested but device is still closed"@,
{
}

/// An `exec` that timed out is explained by what was captured, or else by what
/// the device is known to be, and says for how long it waited.
pub proof fn law_exec_timeout(
    captured: &str,
    shell: &str,
    device_id: &Option<String>,
    cmd: &str,
    timeout_ms: u32,
    s: String,
    i: int,
)
    requires
        call_ensures(exec_timeout_line, (captured, shell, device_id, cmd, timeout_ms), s),
    ensures
        ({
            let start = "tether: exec timed out after "@ + decimal(timeout_ms as nat) + "ms"@;
            let seen = exists|j: int| text_at(captured@, "Unknown command"@, j);
            let recipe = "tether "@ + (match *device_id {
                Some(id) => "-d "@ + id@ + " "@,
                None => ""@,
            }) + "run \""@ + cmd@ + "\" -u \"=> \" --newline cr"@;
            &&& seen ==> s@ == start + (
            " — the device looks like a U-Boot / raw console (saw \"Unknown command\"). Try: "@
                + recipe + " or set shell=uboot on the device"@)
            &&& !seen && shell@ == "uboot"@ ==> s@ == start + (
            " on a shell=uboot device — no end marker seen. A U-Boot built without the hush parser can't run exec; fall back to "@
                + recipe)
            &&& !seen && shell@ != "uboot"@ ==> s@ == start
                + " — no end-marker seen. Is the device at a shell prompt? (exec needs a POSIX-ish shell; for raw consoles use `send` + `expect`.)"@
        }),
{
}

/// A private daemon is local: an endpoint over TCP is refused for it.
pub proof fn law_standalone_is_local(endpoint: &str, rest: Seq<char>, r: Result<(), CliError>)
    requires
        call_ensures(check_standalone, (endpoint,), r),
    ensures
        endpoint@ == "tcp:"@ + rest || endpoint@ == "tcp://"@ + rest ==> r is Err,
        endpoint@.len() > 0 && endpoint@[0] == '/' ==> r is Ok,
{
    reveal_strlit("tcp:");
    reveal_strlit("tcp://");
    let s = endpoint@;
    if s == "tcp:"@ + rest {
        assert(s.take(4) =~= "tcp:"@);
    }
    if s == "tcp://"@ + rest {
        assert(s.take(6) =~= "tcp://"@);
    }
    if s.len() > 0 && s[0] == '/' {
        if starts_with(s, "tcp:"@) {
            assert(s.take(4)[0] == 't');
        }
        if starts_with(s, "tcp://"@) {
            assert(s.take(6)[0] == 't');
        }
    }
}

/// Every `exec` has markers of its own: the fixed words and twelve random
/// hexadecimal digits, the same in the line, the marker and the pattern.
pub proof fn law_exec_markers(cmd: &str, w: Wrapping)
    requires
        call_ensures(wrap_exec_command, (cmd,), w),
    ensures
        w.begin_marker@.len() == 25,
        starts_with(w.begin_marker@, "TETHEREXECBEG"@),
        starts_with(w.end_pattern@, "TETHEREXECEND"@ + w.begin_marker@.skip(13)),
        exists|i: int| text_at(w.line@, cmd@, i),
{
    reveal_strlit("TETHEREXECBEG");
    reveal_strlit("TETHEREXECEND");
    let tag = choose|tag: Seq<char>| #[trigger]
        crate::exec::is_wrapping(w, cmd@, tag) && crate::exec::is_tag(tag);
    let b = w.begin_marker@;
    assert(b.take(13) =~= "TETHEREXECBEG"@);
    assert(b.skip(13) =~= tag);
    let e = "TETHEREXECEND"@ + tag;
    assert(w.end_pattern@.take(e.len() as int) =~= e);
    let head = "echo \"TETHEREXECBE\"\"G"@ + tag + "\"; "@;
    let n = head.len() as int;
    assert(w.line@.subrange(n, n + cmd@.len()) =~= cmd@);
    assert(text_at(w.line@, cmd@, n));
}

proof fn lemma_split_last(t: Seq<char>, c: char, x: Seq<char>)
    requires
        !x.contains(c),
    ensures
        split(t + x, c).len() == split(t, c).len(),
        split(t + x, c).drop_last() == split(t, c).drop_last(),
        split(t + x, c).last() == split(t, c).last() + x,
    decreases t.len(),
{
    let s = t + x;
    lemma_find_char(t, c);
    let n = crate::text::find_char(t, c) as int;
    assert forall|k: int| 0 <= k < n implies #[trigger] s[k] != c by {
        assert(s[k] == t[k]);
    }
    if n < t.len() {
        assert(s[n] == t[n]);
        lemma_find_char_at(s, c, n);
        let rest = t.skip(n + 1);
        assert(s.take(n) =~= t.take(n));
        assert(s.skip(n + 1) =~= rest + x);
        lemma_split_last(rest, c, x);
        law_split_rejoins(rest, c);
        let first = seq![t.take(n)];
        assert((first + split(rest + x, c)).drop_last() =~= first + split(rest + x, c).drop_last());
        assert((first + split(rest, c)).drop_last() =~= first + split(rest, c).drop_last());
    } else {
        assert forall|k: int| 0 <= k < s.len() implies #[trigger] s[k] != c by {
            if k >= n {
                assert(s[k] == x[k - n]);
                assert(x.contains(x[k - n]));
            }
        }
        lemma_find_char_at(s, c, s.len() as int);
        assert(split(s, c) == seq![s]);
        assert(split(t, c) == seq![t]);
        assert(seq![s].drop_last() =~= seq![t].drop_last());
    }
}

proof fn lemma_last_nonblank_crlf(
    pieces: Seq<Seq<char>>,
    other: Seq<Seq<char>>,
    f: Seq<char>,
    n: int,
)
    requires
        pieces.len() > 0,
        0 <= n <= pieces.len(),
        other.len() == pieces.len() + 1,
        forall|i: int| 0 <= i < pieces.len() - 1 ==> #[trigger] other[i] == pieces[i],
        other[pieces.len() - 1] == pieces.last() + seq!['\r'],
        other[pieces.len() as int] == f,
    ensures
        crate::command::last_nonblank(other, n) == crate::command::last_nonblank(pieces, n),
    decreases n,
{
    if n > 0 {
        lemma_last_nonblank_crlf(pieces, other, f, n - 1);
        if n == pieces.len() {
            assert((pieces.last() + seq!['\r']).drop_last() =~= pieces.last());
        } else {
            assert(other[n - 1] == pieces[n - 1]);
        }
        assert(crate::command::line_text(other, n - 1) == crate::command::line_text(pieces, n - 1));
    }
}

/// A CR before a line break is no part of the line: a blank line after CR LF
/// changes nothing.
pub proof fn law_last_line_without_cr(
    text: &str,
    longer: &str,
    f: Seq<char>,
    a: String,
    b: String,
)
    requires
        call_ensures(last_line, (text,), a),
        call_ensures(last_line, (longer,), b),
        forall|i: int| 0 <= i < f.len() ==> #[trigger] f[i] == ' ',
        longer@ == text@ + seq!['\r'] + seq!['\n'] + f,
    ensures
        b@ == a@,
{
    let t = text@;
    let cr = seq!['\r'];
    assert(!cr.contains('\n')) by {
        if cr.contains('\n') {
            let k = choose|k: int| 0 <= k < cr.len() && cr[k] == '\n';
        }
    }
    assert(!f.contains('\n')) by {
        if f.contains('\n') {
            let k = choose|k: int| 0 <= k < f.len() && f[k] == '\n';
            assert(f[k] == ' ');
        }
    }
    law_split_rejoins(t, '\n');
    lemma_split_last(t, '\n', cr);
    lemma_split_push(t + cr, '\n', f);
    let pieces = split(t, '\n');
    let mid = split(t + cr, '\n');
    let other = mid.push(f);
    assert forall|i: int| 0 <= i < pieces.len() - 1 implies #[trigger] other[i] == pieces[i] by {
        assert(mid[i] == mid.drop_last()[i]);
        assert(pieces[i] == pieces.drop_last()[i]);
    }
    assert(mid[pieces.len() - 1] == mid.last());
    lemma_last_nonblank_crlf(pieces, other, f, pieces.len() as int);
    assert forall|i: int| 0 <= i < f.len() implies crate::text::is_white(#[trigger] f[i]) by {
        law_white_space(f[i]);
    }
    let none = Seq::<char>::empty();
    assert(f + none + none =~= f);
    law_trim(f, none, none);
    assert(crate::command::line_text(other, pieces.len() as int) == f);
}

/// A port of which everything is known is shown with all of it, in this order.
pub proof fn law_port_line_in_full(
    ports: &Vec<PortInfo>,
    lines: Vec<String>,
    i: int,
    m: String,
    p: String,
    n: String,
    v: String,
    d: String,
)
    requires
        call_ensures(port_lines, (ports,), lines),
        0 <= i < ports@.len(),
        ports@[i].manufacturer == Some(m),
        ports@[i].product == Some(p),
        ports@[i].serial_number == Some(n),
        ports@[i].vid == Some(v),
        ports@[i].pid == Some(d),
    ensures
        lines@[i]@ == ports@[i].path@ + "  ("@ + ports@[i].kind@ + ")  "@ + (("manufacturer="@ + m@)
            + ", "@ + ("product="@ + p@) + ", "@ + ("serial="@ + n@) + ", "@ + ("usb="@ + v@ + ":"@
            + d@)),
{
    let port = ports@[i];
    assert(views(lines@).len() == lines@.len());
    assert(views(lines@)[i] == lines@[i]@);
    let a = "manufacturer="@ + m@;
    let b = "product="@ + p@;
    let c = "serial="@ + n@;
    let e = "usb="@ + v@ + ":"@ + d@;
    let all = crate::render::port_details(port);
    assert(all =~= seq![a, b, c, e]);
    assert(all.drop_last() =~= seq![a, b, c]);
    assert(seq![a, b, c].drop_last() =~= seq![a, b]);
    assert(seq![a, b].drop_last() =~= seq![a]);
    reveal_with_fuel(crate::render::comma_joined, 5);
    assert(crate::render::comma_joined(seq![a]) == a);
    assert(crate::render::comma_joined(seq![a, b]) == a + ", "@ + b);
    assert(crate::render::comma_joined(seq![a, b, c]) == a + ", "@ + b + ", "@ + c);
}

/// Whoever is to attach to a shared daemon is told its address, its token and
/// the port to use.
pub proof fn law_share_lines(s: &TcpShare, lines: Vec<String>, host: Seq<char>, port: Seq<char>)
    requires
        call_ensures(share_lines, (s,), lines),
        s.bind@ == host + seq![':'] + port,
        !port.contains(':'),
    ensures
        lines@.len() == 8,
        lines@[1]@ == "tether: also listening on tcp://"@ + s.bind@,
        lines@[2]@ == "tether:   auth token: "@ + s.token@,
        lines@[4]@ == "tether:     TETHER_AUTH_TOKEN="@ + s.token@ + " \\"@,
        lines@[5]@ == "tether:       tether -s tcp://<this-host>:"@ + port + " status"@,
{
    let v = views(lines@);
    assert(v.len() == lines@.len());
    assert(v[1] == lines@[1]@ && v[2] == lines@[2]@ && v[4] == lines@[4]@ && v[5] == lines@[5]@);
    let n = host.len() as int;
    assert(s.bind@[n] == ':');
    assert forall|k: int| n < k < s.bind@.len() implies #[trigger] s.bind@[k] != ':' by {
        assert(s.bind@[k] == port[k - n - 1]);
        assert(port.contains(port[k - n - 1]));
    }
    crate::exec::lemma_after_last_at(s.bind@, ':', n);
    assert(s.bind@.skip(n + 1) =~= port);
}

/// Of several rows under one id, the first counts.
pub proof fn law_first_row_counts(
    status: StatusResult,
    want: &str,
    r: Result<StatusResult, CliError>,
    found: Option<usize>,
    i: int,
)
    requires
        call_ensures(select_status, (status, want), r),
        call_ensures(find_row, (&status.devices, want), found),
        0 <= i < status.devices@.len(),
        status.devices@[i].id@ == want@,
        forall|j: int| 0 <= j < i ==> (#[trigger] status.devices@[j]).id@ != want@,
    ensures
        found == Some(i as usize),
        r matches Ok(s) && s.device == status.devices@[i].device && s.buffer
            == status.devices@[i].buffer && s.lock == status.devices@[i].lock && s.sessions@
            == status.devices@[i].sessions@ && s.default_device == status.default_device,
{
    let rows = status.devices@;
    assert(is_row_of(rows, want@, i));
    if let Some(k) = found {
        if k < i {
            assert(rows[k as int].id@ != want@);
        } else if i < k {
            assert(rows[i].id@ != want@);
        }
    }
    if let Ok(s) = r {
        let k = choose|k: int|
            #[trigger] is_row_of(rows, want@, k) && s.device == rows[k].device && s.buffer
                == rows[k].buffer && s.lock == rows[k].lock && s.sessions@ == rows[k].sessions@;
        if k < i {
            assert(rows[k].id@ != want@);
        } else if i < k {
            assert(rows[i].id@ != want@);
        }
    }
}

proof fn lemma_joined_ids_prefix(rows: Seq<DeviceStatus>, row: DeviceStatus, n: int)
    requires
        0 <= n <= rows.len(),
    ensures
        joined_ids(rows.push(row), n) == joined_ids(rows, n),
    decreases n,
{
    if n > 1 {
        lemma_joined_ids_prefix(rows, row, n - 1);
    }
}

/// Who asks for a device that is not there is told which ones are: each id, in
/// the daemon's order, with commas between them.
pub proof fn law_missing_device_report(
    few: StatusResult,
    more: StatusResult,
    row: DeviceStatus,
    want: &str,
    a: CliError,
    b: CliError,
    ids: Seq<char>,
    m: String,
)
    requires
        call_ensures(select_status, (few, want), Err::<StatusResult, CliError>(a)),
        call_ensures(select_status, (more, want), Err::<StatusResult, CliError>(b)),
        more.devices@ == few.devices@.push(row),
        few.devices@.len() > 0,
        a == CliError::Protocol(m),
        m@ == "device \""@ + want@ + "\" not found (daemon has: "@ + ids + ")"@,
    ensures
        b matches CliError::Protocol(t) && t@ == "device \""@ + want@
            + "\" not found (daemon has: "@ + (ids + ", "@ + row.id@) + ")"@,
        few.devices@.len() == 1 ==> ids == few.devices@[0].id@,
{
    let rows = few.devices@;
    let n = rows.len() as int;
    lemma_joined_ids_prefix(rows, row, n);
    let head = "device \""@ + want@ + "\" not found (daemon has: "@;
    let known = joined_ids(rows, n);
    assert(m@ == head + known + ")"@);
    assert(known =~= ids) by {
        let k = head.len() as int;
        assert((head + known + ")"@).len() == (head + ids + ")"@).len());
        assert forall|j: int| 0 <= j < known.len() implies known[j] == ids[j] by {
            assert((head + known + ")"@)[k + j] == known[j]);
            assert((head + ids + ")"@)[k + j] == ids[j]);
        }
    }
}

/// Who cannot reach a daemon is told which address failed and why.
pub proof fn law_connect_errors(
    path: &str,
    fault: DialFault,
    cause: &str,
    local: CliError,
    addr: &str,
    remote: CliError,
)
    requires
        call_ensures(make_uds_connect_error, (path, fault, cause), local),
        call_ensures(make_tcp_connect_error, (addr, cause), remote),
    ensures
        local is Connection && remote is Connection,
        fault is NotFound ==> starts_with(
            local->Connection_0@,
            "tether: cannot connect to "@ + path@ + " — "@
                + "socket file does not exist (daemon not running?)"@,
        ),
        fault is Refused ==> starts_with(
            local->Connection_0@,
            "tether: cannot connect to "@ + path@ + " — "@
                + "connection refused (stale socket from a crashed daemon?)"@,
        ),
        fault is Other ==> local->Connection_0@ == "connect "@ + path@ + ": "@ + cause@,
        starts_with(
            remote->Connection_0@,
            "tether: cannot connect to tcp://"@ + addr@ + " — "@ + cause@,
        ),
{
    let t = remote->Connection_0@;
    let head = "tether: cannot connect to tcp://"@ + addr@ + " — "@ + cause@;
    assert(t.take(head.len() as int) =~= head);
    let u = local->Connection_0@;
    let h = "tether: cannot connect to "@ + path@ + " — "@;
    if fault is NotFound {
        let w = h + "socket file does not exist (daemon not running?)"@;
        assert(u.take(w.len() as int) =~= w);
    }
    if fault is Refused {
        let w = h + "connection refused (stale socket from a crashed daemon?)"@;
        assert(u.take(w.len() as int) =~= w);
    }
}

/// The shell lists each port with its kind and its product, or else its
/// manufacturer, and says so where there is none.
pub proof fn law_shell_ports(ports: &Vec<PortInfo>, pieces: Vec<String>, i: int)
    requires
        call_ensures(ports_text, (ports,), pieces),
    ensures
        ports@.len() == 0 ==> views(pieces@) == seq!["\r\n[no serial ports detected]\r\n"@],
        ports@.len() > 0 ==> pieces@.len() == ports@.len() + 2 && pieces@[0]@
            == "\r\n[ports]\r\n"@ && pieces@.last()@ == "\r\n"@,
        0 <= i < ports@.len() ==> ({
            let p = ports@[i];
            let shown = pieces@[i + 1]@;
            let bare = "  "@ + p.path@ + "  ("@ + p.kind@ + ")\r\n"@;
            let head = "  "@ + p.path@ + "  ("@ + p.kind@ + ")  "@;
            &&& p.product matches Some(x) ==> shown == (if x@.len() > 0 {
                head + x@ + "\r\n"@
            } else {
                bare
            })
            &&& p.product is None ==> (p.manufacturer matches Some(x) ==> shown == (if x@.len()
                > 0 {
                head + x@ + "\r\n"@
            } else {
                bare
            }))
            &&& p.product is None && p.manufacturer is None ==> shown == bare
        }),
{
    reveal_strlit("");
    let v = views(pieces@);
    assert(v.len() == pieces@.len());
    if ports@.len() > 0 {
        assert(v[0] == pieces@[0]@);
        assert(v[v.len() - 1] == pieces@.last()@);
    }
    if 0 <= i < ports@.len() {
        assert(v[i + 1] == pieces@[i + 1]@);
    }
}

} // verus!
