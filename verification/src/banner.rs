//! The daemon's startup banner: what it serves, where it listens, and how to
//! reach it.

use vstd::prelude::*;
use vstd::string::*;

use crate::handlers::SERVER_VERSION;
use crate::message::{DeviceSummary, ListDevicesResult};
use crate::startup::address_views;
use crate::text::{
    cat2, cat3, cat4, cat5, dec_u64, decimal, ends_with, pad_right, padded, push_line, push_lines,
    starts_with, str_eq, views,
};

verus! {

/// How the daemon is reached over TCP.
#[derive(Debug)]
pub struct TcpBanner {
    /// The bound address, as text.
    pub bind: String,
    pub port: u16,
    /// Addresses clients can use, with the interface's name where known.
    pub reachable: Vec<(String, Option<String>)>,
}

/// Everything the banner tells.
#[derive(Debug)]
pub struct Banner {
    /// The devices in listing order.
    pub devices: ListDevicesResult,
    pub buffer_capacity: usize,
    pub auth_token: Option<String>,
    pub no_uds: bool,
    pub name: Option<String>,
    pub socket_path: String,
    pub tcp: Option<TcpBanner>,
}

/// The letter for a parity's name.
pub open spec fn parity_initial(parity: Seq<char>) -> Seq<char> {
    if parity.len() > 0 && parity[0] == 'n' {
        "N"@
    } else if parity.len() > 0 && parity[0] == 'o' {
        "O"@
    } else if parity.len() > 0 && parity[0] == 'e' {
        "E"@
    } else {
        "?"@
    }
}

fn initial_of(parity: &str) -> (s: &'static str)
    ensures
        s@ == parity_initial(parity@),
{
    if parity.unicode_len() == 0 {
        return "?";
    }
    let c: char = parity.get_char(0);
    if c == 'n' {
        "N"
    } else if c == 'o' {
        "O"
    } else if c == 'e' {
        "E"
    } else {
        "?"
    }
}

/// `<data bits><parity><stop bits> flow=<flow control>`.
pub open spec fn framing(d: DeviceSummary) -> Seq<char> {
    decimal(d.data_bits as nat) + parity_initial(d.parity@) + decimal(d.stop_bits as nat)
        + " flow="@ + d.flow_control@
}

fn framing_text(d: &DeviceSummary) -> (s: String)
    ensures
        s@ == framing(*d),
{
    cat5(
        dec_u64(d.data_bits as u64).as_str(),
        initial_of(d.parity.as_str()),
        dec_u64(d.stop_bits as u64).as_str(),
        " flow=",
        d.flow_control.as_str(),
    )
}

/// The line for one of several devices.
pub open spec fn device_line(d: DeviceSummary, default: Seq<char>) -> Seq<char> {
    "    "@ + padded(d.id@, 10) + " "@ + d.path@ + " @ "@ + decimal(d.baud as nat) + " baud  "@
        + framing(d) + (if d.id@ == default {
        " (default)"@
    } else {
        ""@
    })
}

fn device_line_text(d: &DeviceSummary, default: &str) -> (s: String)
    ensures
        s@ == device_line(*d, default@),
{
    let mut s = "    ".to_owned();
    s.append(pad_right(d.id.as_str(), 10).as_str());
    s.append(" ");
    s.append(d.path.as_str());
    s.append(" @ ");
    s.append(dec_u64(d.baud as u64).as_str());
    s.append(" baud  ");
    s.append(framing_text(d).as_str());
    if str_eq(d.id.as_str(), default) {
        s.append(" (default)");
    } else {
        s.append("");
    }
    s
}

pub open spec fn device_lines(devices: Seq<DeviceSummary>, n: int, default: Seq<char>) -> Seq<
    Seq<char>,
> {
    Seq::new(n as nat, |i: int| device_line(devices[i], default))
}

/// The lines about the devices: two for a single one, else a list.
pub open spec fn device_section(l: ListDevicesResult) -> Seq<Seq<char>> {
    if l.devices@.len() == 1 {
        let d = l.devices@[0];
        seq![
            "  device     "@ + d.path@ + " @ "@ + decimal(d.baud as nat) + " baud"@,
            "  framing    "@ + framing(d),
        ]
    } else {
        seq!["  devices"@] + device_lines(l.devices@, l.devices@.len() as int, l.default_device@)
    }
}

fn device_section_lines(l: &ListDevicesResult) -> (lines: Vec<String>)
    ensures
        views(lines@) == device_section(*l),
{
    let mut lines: Vec<String> = Vec::new();
    if l.devices.len() == 1 {
        let d = &l.devices[0];
        push_line(
            &mut lines,
            cat5(
                "  device     ",
                d.path.as_str(),
                " @ ",
                dec_u64(d.baud as u64).as_str(),
                " baud",
            ),
        );
        push_line(&mut lines, cat2("  framing    ", framing_text(d).as_str()));
        assert(views(lines@) =~= device_section(*l));
        return lines;
    }
    push_line(&mut lines, "  devices".to_owned());
    let mut i: usize = 0;
    assert(views(lines@) =~= seq!["  devices"@] + device_lines(l.devices@, 0, l.default_device@));
    while i < l.devices.len()
        invariant
            i <= l.devices@.len(),
            views(lines@) == seq!["  devices"@] + device_lines(
                l.devices@,
                i as int,
                l.default_device@,
            ),
        decreases l.devices@.len() - i,
    {
        push_line(&mut lines, device_line_text(&l.devices[i], l.default_device.as_str()));
        i = i + 1;
        assert(views(lines@) =~= seq!["  devices"@] + device_lines(
            l.devices@,
            i as int,
            l.default_device@,
        ));
    }
    lines
}

pub open spec fn auth_section(token: Option<String>) -> Seq<Seq<char>> {
    match token {
        Some(t) => seq![
            "  auth       "@ + t@,
            "             (clients: --auth-token "@ + t@ + "  or  TETHER_AUTH_TOKEN="@ + t@ + ")"@,
        ],
        None => Seq::empty(),
    }
}

fn auth_section_lines(token: &Option<String>) -> (lines: Vec<String>)
    ensures
        views(lines@) == auth_section(*token),
{
    let mut lines: Vec<String> = Vec::new();
    if let Some(t) = token {
        push_line(&mut lines, cat2("  auth       ", t.as_str()));
        push_line(
            &mut lines,
            cat5(
                "             (clients: --auth-token ",
                t.as_str(),
                "  or  TETHER_AUTH_TOKEN=",
                t.as_str(),
                ")",
            ),
        );
    }
    assert(views(lines@) =~= auth_section(*token));
    lines
}

pub open spec fn unix_section(b: Banner) -> Seq<Seq<char>> {
    if b.no_uds {
        Seq::empty()
    } else {
        match b.name {
            Some(n) => seq!["  unix       "@ + b.socket_path@ + "    (name: "@ + n@ + ")"@],
            None => seq!["  unix       "@ + b.socket_path@],
        }
    }
}

fn unix_section_lines(b: &Banner) -> (lines: Vec<String>)
    ensures
        views(lines@) == unix_section(*b),
{
    let mut lines: Vec<String> = Vec::new();
    if !b.no_uds {
        match &b.name {
            Some(n) => {
                push_line(
                    &mut lines,
                    cat5(
                        "  unix       ",
                        b.socket_path.as_str(),
                        "    (name: ",
                        n.as_str(),
                        ")",
                    ),
                );
            },
            None => {
                push_line(&mut lines, cat2("  unix       ", b.socket_path.as_str()));
            },
        }
    }
    assert(views(lines@) =~= unix_section(*b));
    lines
}

/// The line for one address, its port padded where a name follows.
pub open spec fn address_line(a: (Seq<char>, Option<Seq<char>>), port: u16) -> Seq<char> {
    match a.1 {
        Some(name) => "                 tcp://"@ + a.0 + ":"@ + padded(decimal(port as nat), 5)
            + "  ("@ + name + ")"@,
        None => "                 tcp://"@ + a.0 + ":"@ + decimal(port as nat),
    }
}

fn address_line_text(a: &(String, Option<String>), port: u16) -> (s: String)
    ensures
        s@ == address_line((a.0@, crate::text::opt_view(a.1)), port),
{
    let number = dec_u64(port as u64);
    match &a.1 {
        Some(name) => {
            let mut s = cat3("                 tcp://", a.0.as_str(), ":");
            s.append(pad_right(number.as_str(), 5).as_str());
            s.append("  (");
            s.append(name.as_str());
            s.append(")");
            s
        },
        None => cat4("                 tcp://", a.0.as_str(), ":", number.as_str()),
    }
}

pub open spec fn address_lines(
    reachable: Seq<(Seq<char>, Option<Seq<char>>)>,
    n: int,
    port: u16,
) -> Seq<Seq<char>> {
    Seq::new(n as nat, |i: int| address_line(reachable[i], port))
}

pub open spec fn tcp_section(tcp: Option<TcpBanner>) -> Seq<Seq<char>> {
    match tcp {
        Some(t) => {
            let reachable = address_views(t.reachable@);
            seq!["  tcp        "@ + t.bind@ + "    (auth required)"@] + (if reachable.len() == 0 {
                Seq::empty()
            } else {
                seq!["               reachable as:"@] + address_lines(
                    reachable,
                    reachable.len() as int,
                    t.port,
                )
            })
        },
        None => Seq::empty(),
    }
}

fn tcp_section_lines(tcp: &Option<TcpBanner>) -> (lines: Vec<String>)
    ensures
        views(lines@) == tcp_section(*tcp),
{
    let mut lines: Vec<String> = Vec::new();
    if let Some(t) = tcp {
        push_line(&mut lines, cat3("  tcp        ", t.bind.as_str(), "    (auth required)"));
        let ghost head = "  tcp        "@ + t.bind@ + "    (auth required)"@;
        let ghost reachable = address_views(t.reachable@);
        if t.reachable.len() > 0 {
            push_line(&mut lines, "               reachable as:".to_owned());
            let ghost first = seq![head] + seq!["               reachable as:"@];
            let mut i: usize = 0;
            assert(views(lines@) =~= first + address_lines(reachable, 0, t.port));
            while i < t.reachable.len()
                invariant
                    i <= t.reachable@.len(),
                    reachable == address_views(t.reachable@),
                    views(lines@) == first + address_lines(reachable, i as int, t.port),
                decreases t.reachable@.len() - i,
            {
                push_line(&mut lines, address_line_text(&t.reachable[i], t.port));
                i = i + 1;
                assert(views(lines@) =~= first + address_lines(reachable, i as int, t.port));
            }
        }
    }
    assert(views(lines@) =~= tcp_section(*tcp));
    lines
}

/// The command a user can try first.
pub open spec fn example_target(b: Banner) -> Seq<char> {
    match b.tcp {
        Some(t) => "TETHER_AUTH_TOKEN="@ + (match b.auth_token {
            Some(token) => token@,
            None => "..."@,
        }) + " tether -s tcp://<host>:"@ + decimal(t.port as nat),
        None => match b.name {
            Some(n) => "tether --name "@ + n@,
            None => "tether"@,
        },
    }
}

fn example_target_text(b: &Banner) -> (s: String)
    ensures
        s@ == example_target(*b),
{
    match &b.tcp {
        Some(t) => {
            let token = match &b.auth_token {
                Some(token) => token.as_str(),
                None => "...",
            };
            cat4(
                "TETHER_AUTH_TOKEN=",
                token,
                " tether -s tcp://<host>:",
                dec_u64(t.port as u64).as_str(),
            )
        },
        None => match &b.name {
            Some(n) => cat2("tether --name ", n.as_str()),
            None => "tether".to_owned(),
        },
    }
}

/// All lines of the banner.
pub open spec fn banner_text(b: Banner) -> Seq<Seq<char>> {
    seq![""@, "Serial Tether "@ + SERVER_VERSION@] + device_section(b.devices) + seq![
        "  buffer     "@ + decimal((b.buffer_capacity / 1024) as nat) + " KiB"@,
    ] + auth_section(b.auth_token) + seq![""@, "Listening:"@] + unix_section(b) + tcp_section(
        b.tcp,
    ) + seq![""@, "  try:       "@ + example_target(b) + " status"@, ""@]
}

/// Writes the banner, one string per line.
pub fn banner_lines(b: &Banner) -> (lines: Vec<String>)
    ensures
        views(lines@) == banner_text(*b),
{
    let mut lines: Vec<String> = Vec::new();
    push_line(&mut lines, "".to_owned());
    push_line(&mut lines, cat2("Serial Tether ", SERVER_VERSION));
    let ghost s1 = seq![""@, "Serial Tether "@ + SERVER_VERSION@];
    assert(views(lines@) =~= s1);
    push_lines(&mut lines, device_section_lines(&b.devices));
    let ghost s2 = s1 + device_section(b.devices);
    push_line(
        &mut lines,
        cat3("  buffer     ", dec_u64((b.buffer_capacity / 1024) as u64).as_str(), " KiB"),
    );
    let ghost s3 = s2 + seq![
        "  buffer     "@ + decimal((b.buffer_capacity / 1024) as nat) + " KiB"@,
    ];
    assert(views(lines@) =~= s3);
    push_lines(&mut lines, auth_section_lines(&b.auth_token));
    let ghost s4 = s3 + auth_section(b.auth_token);
    push_line(&mut lines, "".to_owned());
    push_line(&mut lines, "Listening:".to_owned());
    let ghost s5 = s4 + seq![""@, "Listening:"@];
    assert(views(lines@) =~= s5);
    push_lines(&mut lines, unix_section_lines(b));
    push_lines(&mut lines, tcp_section_lines(&b.tcp));
    let ghost s6 = s5 + unix_section(*b) + tcp_section(b.tcp);
    push_line(&mut lines, "".to_owned());
    push_line(&mut lines, cat3("  try:       ", example_target_text(b).as_str(), " status"));
    push_line(&mut lines, "".to_owned());
    assert(views(lines@) =~= s6 + seq![
        ""@,
        "  try:       "@ + example_target(*b) + " status"@,
        ""@,
    ]);
    lines
}

proof fn lemma_in_parts(a: Seq<Seq<char>>, b: Seq<Seq<char>>, x: Seq<char>)
    ensures
        (a + b).contains(x) <==> a.contains(x) || b.contains(x),
{
    let s = a + b;
    if a.contains(x) {
        let k = choose|k: int| 0 <= k < a.len() && a[k] == x;
        assert(s[k] == x);
    }
    if b.contains(x) {
        let k = choose|k: int| 0 <= k < b.len() && b[k] == x;
        assert(s[k + a.len()] == x);
    }
    if s.contains(x) {
        let k = choose|k: int| 0 <= k < s.len() && s[k] == x;
        if k < a.len() {
            assert(a[k] == x);
        } else {
            assert(b[k - a.len()] == x);
        }
    }
}

proof fn lemma_in_banner(b: Banner, x: Seq<char>)
    requires
        device_section(b.devices).contains(x) || auth_section(b.auth_token).contains(x)
            || unix_section(b).contains(x) || tcp_section(b.tcp).contains(x) || x == "  buffer     "@
            + decimal((b.buffer_capacity / 1024) as nat) + " KiB"@ || x == "  try:       "@
            + example_target(b) + " status"@,
    ensures
        banner_text(b).contains(x),
{
    let s1 = seq![""@, "Serial Tether "@ + SERVER_VERSION@];
    let s2 = s1 + device_section(b.devices);
    let m3 = seq!["  buffer     "@ + decimal((b.buffer_capacity / 1024) as nat) + " KiB"@];
    let s3 = s2 + m3;
    let s4 = s3 + auth_section(b.auth_token);
    let m5 = seq![""@, "Listening:"@];
    let s5 = s4 + m5;
    let s6 = s5 + unix_section(b);
    let s7 = s6 + tcp_section(b.tcp);
    let m8 = seq![""@, "  try:       "@ + example_target(b) + " status"@, ""@];
    lemma_in_parts(s1, device_section(b.devices), x);
    lemma_in_parts(s2, m3, x);
    lemma_in_parts(s3, auth_section(b.auth_token), x);
    lemma_in_parts(s4, m5, x);
    lemma_in_parts(s5, unix_section(b), x);
    lemma_in_parts(s6, tcp_section(b.tcp), x);
    lemma_in_parts(s7, m8, x);
    assert(m3[0] == "  buffer     "@ + decimal((b.buffer_capacity / 1024) as nat) + " KiB"@);
    assert(m8[1] == "  try:       "@ + example_target(b) + " status"@);
}

/// The banner tells what a user needs to connect: each device with its path and
/// baud rate, the token, the socket, the TCP address with where it is reachable,
/// and a command to try.
pub proof fn law_banner_tells(b: &Banner, lines: Vec<String>, i: int)
    requires
        call_ensures(banner_lines, (b,), lines),
    ensures
        ({
            let v = views(lines@);
            let n = b.devices.devices@.len();
            &&& n == 1 ==> v.contains(
                "  device     "@ + b.devices.devices@[0].path@ + " @ "@ + decimal(
                    b.devices.devices@[0].baud as nat,
                ) + " baud"@,
            )
            &&& n > 1 && 0 <= i < n ==> exists|k: int|
                #![trigger v[k]]
                0 <= k < v.len() && starts_with(
                    v[k],
                    "    "@ + padded(b.devices.devices@[i].id@, 10) + " "@
                        + b.devices.devices@[i].path@ + " @ "@ + decimal(
                        b.devices.devices@[i].baud as nat,
                    ) + " baud  "@,
                ) && (ends_with(v[k], " (default)"@) <== b.devices.devices@[i].id@
                    == b.devices.default_device@)
            &&& b.auth_token matches Some(t) ==> v.contains("  auth       "@ + t@)
            &&& !b.no_uds && b.name is None ==> v.contains("  unix       "@ + b.socket_path@)
            &&& !b.no_uds ==> (b.name matches Some(m) ==> v.contains(
                "  unix       "@ + b.socket_path@ + "    (name: "@ + m@ + ")"@,
            ))
            &&& b.tcp matches Some(t) ==> v.contains(
                "  tcp        "@ + t.bind@ + "    (auth required)"@,
            )
            &&& b.tcp is Some && 0 <= i < b.tcp->Some_0.reachable@.len()
                && b.tcp->Some_0.reachable@[i].1 is None ==> v.contains(
                "                 tcp://"@ + b.tcp->Some_0.reachable@[i].0@ + ":"@ + decimal(
                    b.tcp->Some_0.port as nat,
                ),
            )
            &&& b.tcp is None && b.name is None ==> v.contains(
                "  try:       "@ + "tether"@ + " status"@,
            )
            &&& b.tcp is None ==> (b.name matches Some(m) ==> v.contains(
                "  try:       "@ + ("tether --name "@ + m@) + " status"@,
            ))
            &&& b.tcp is Some && b.auth_token is Some ==> v.contains(
                "  try:       "@ + ("TETHER_AUTH_TOKEN="@ + b.auth_token->Some_0@
                    + " tether -s tcp://<host>:"@ + decimal(b.tcp->Some_0.port as nat))
                    + " status"@,
            )
            &&& v.contains(
                "  buffer     "@ + decimal((b.buffer_capacity / 1024) as nat) + " KiB"@,
            )
        }),
{
    let v = views(lines@);
    let l = b.devices;
    let n = l.devices@.len() as int;
    let section = device_section(l);
    if n == 1 {
        let x = "  device     "@ + l.devices@[0].path@ + " @ "@ + decimal(
            l.devices@[0].baud as nat,
        ) + " baud"@;
        assert(section[0] == x);
        lemma_in_banner(*b, x);
    }
    if n > 1 && 0 <= i < n {
        let d = l.devices@[i];
        let x = device_line(d, l.default_device@);
        let rows = device_lines(l.devices@, n, l.default_device@);
        assert(rows[i] == x);
        lemma_in_parts(seq!["  devices"@], rows, x);
        lemma_in_banner(*b, x);
        let k = choose|k: int| 0 <= k < v.len() && v[k] == x;
        let head = "    "@ + padded(d.id@, 10) + " "@ + d.path@ + " @ "@ + decimal(d.baud as nat)
            + " baud  "@;
        assert(x.take(head.len() as int) =~= head);
        if d.id@ == l.default_device@ {
            let tail = " (default)"@;
            assert(x.skip(x.len() - tail.len()) =~= tail);
        }
        assert(starts_with(v[k], head));
    }
    if let Some(t) = b.auth_token {
        let x = "  auth       "@ + t@;
        assert(auth_section(b.auth_token)[0] == x);
        lemma_in_banner(*b, x);
    }
    if !b.no_uds {
        assert(unix_section(*b).contains(unix_section(*b)[0]));
        lemma_in_banner(*b, unix_section(*b)[0]);
    }
    if let Some(t) = b.tcp {
        let x = "  tcp        "@ + t.bind@ + "    (auth required)"@;
        assert(tcp_section(b.tcp)[0] == x);
        lemma_in_banner(*b, x);
        if 0 <= i < t.reachable@.len() {
            let reachable = address_views(t.reachable@);
            assert(reachable.len() == t.reachable@.len());
            let rows = address_lines(reachable, reachable.len() as int, t.port);
            let y = address_line(reachable[i], t.port);
            assert(rows[i] == y);
            assert(reachable[i] == (t.reachable@[i].0@, crate::text::opt_view(t.reachable@[i].1)));
            lemma_in_parts(seq!["               reachable as:"@], rows, y);
            lemma_in_parts(seq![x], seq!["               reachable as:"@] + rows, y);
            lemma_in_banner(*b, y);
        }
    }
    lemma_in_banner(*b, "  try:       "@ + example_target(*b) + " status"@);
    lemma_in_banner(
        *b,
        "  buffer     "@ + decimal((b.buffer_capacity / 1024) as nat) + " KiB"@,
    );
}

/// The banner's other lines about a single device, the token and the addresses
/// that have a name: the device's framing is its data bits, the capital of its
/// parity and its stop bits.
pub proof fn law_banner_details(b: &Banner, lines: Vec<String>, i: int, letter: char)
    requires
        call_ensures(banner_lines, (b,), lines),
    ensures
        ({
            let v = views(lines@);
            let n = b.devices.devices@.len();
            let d = b.devices.devices@[0];
            let known = (d.parity@ == "none"@ && letter == 'N') || (d.parity@ == "odd"@ && letter
                == 'O') || (d.parity@ == "even"@ && letter == 'E');
            &&& n == 1 && known ==> v.contains(
                "  framing    "@ + (decimal(d.data_bits as nat) + seq![letter] + decimal(
                    d.stop_bits as nat,
                ) + " flow="@ + d.flow_control@),
            )
            &&& b.auth_token matches Some(t) ==> v.contains(
                "             (clients: --auth-token "@ + t@ + "  or  TETHER_AUTH_TOKEN="@ + t@
                    + ")"@,
            )
            &&& b.tcp is Some && 0 <= i < b.tcp->Some_0.reachable@.len() ==> (
            b.tcp->Some_0.reachable@[i].1 matches Some(name) ==> v.contains(
                "                 tcp://"@ + b.tcp->Some_0.reachable@[i].0@ + ":"@ + padded(
                    decimal(b.tcp->Some_0.port as nat),
                    5,
                ) + "  ("@ + name@ + ")"@,
            ))
            &&& n > 1 && 0 <= i < n && b.devices.devices@[i].id@ != b.devices.default_device@
                && b.devices.devices@[i].parity@ == "none"@ ==> v.contains(
                "    "@ + padded(b.devices.devices@[i].id@, 10) + " "@
                    + b.devices.devices@[i].path@ + " @ "@ + decimal(
                    b.devices.devices@[i].baud as nat,
                ) + " baud  "@ + (decimal(b.devices.devices@[i].data_bits as nat) + "N"@ + decimal(
                    b.devices.devices@[i].stop_bits as nat,
                ) + " flow="@ + b.devices.devices@[i].flow_control@) + ""@,
            )
        }),
{
    let l = b.devices;
    let n = l.devices@.len() as int;
    reveal_strlit("none");
    reveal_strlit("odd");
    reveal_strlit("even");
    reveal_strlit("N");
    reveal_strlit("O");
    reveal_strlit("E");
    assert("none"@[0] == 'n' && "odd"@[0] == 'o' && "even"@[0] == 'e');
    assert("N"@ =~= seq!['N'] && "O"@ =~= seq!['O'] && "E"@ =~= seq!['E']);
    if n == 1 {
        let x = "  framing    "@ + framing(l.devices@[0]);
        assert(device_section(l)[1] == x);
        lemma_in_banner(*b, x);
    }
    if n > 1 && 0 <= i < n {
        let x = device_line(l.devices@[i], l.default_device@);
        let rows = device_lines(l.devices@, n, l.default_device@);
        assert(rows[i] == x);
        lemma_in_parts(seq!["  devices"@], rows, x);
        lemma_in_banner(*b, x);
    }
    if let Some(t) = b.auth_token {
        let x = "             (clients: --auth-token "@ + t@ + "  or  TETHER_AUTH_TOKEN="@ + t@
            + ")"@;
        assert(auth_section(b.auth_token)[1] == x);
        lemma_in_banner(*b, x);
    }
    if let Some(t) = b.tcp {
        if 0 <= i < t.reachable@.len() {
            let reachable = address_views(t.reachable@);
            let rows = address_lines(reachable, reachable.len() as int, t.port);
            let x = address_line(reachable[i], t.port);
            assert(rows[i] == x);
            let head = seq!["  tcp        "@ + t.bind@ + "    (auth required)"@];
            let mid = seq!["               reachable as:"@];
            lemma_in_parts(mid, rows, x);
            lemma_in_parts(head, mid + rows, x);
            lemma_in_banner(*b, x);
        }
    }
}

} // verus!
