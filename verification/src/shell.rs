//! The interactive shell: what each typed byte means.
//!
//! Ctrl-A is the escape prefix; the byte after it selects a command. Every
//! other byte is for the device.

use vstd::prelude::*;
use vstd::string::*;

use crate::command::DeviceCall;
use crate::message::{
    DeviceInfo, DeviceTarget, PortInfo, ReadModemStatusResult, SendBreakParams, SetLineParams,
};
use crate::text::{cat3, cat5, dec_u64, decimal, push_line, views};

verus! {

pub const CTRL_A: u8 = 1;

/// A command of the shell that asks the daemon for something.
#[derive(Debug, Clone, Copy, PartialEq, Eq, Structural)]
pub enum ShellCommand {
    /// Show the live serial configuration.
    Config,
    /// List the available serial ports.
    Ports,
    /// Send a BREAK pulse.
    Break,
    /// Drive DTR to this level.
    Dtr(bool),
    /// Drive RTS to this level.
    Rts(bool),
    /// Show the modem status lines.
    Lines,
}

/// What a byte amounts to.
#[derive(Debug, Clone, Copy, PartialEq, Eq, Structural)]
pub enum Key {
    /// Nothing to do yet; the byte was noted.
    Noted,
    Help,
    /// No command has this byte.
    Unknown(u8),
    Quit,
    /// Send what was typed so far, then perform the command.
    Command(ShellCommand),
}

/// The state of the shell.
#[derive(Debug)]
pub struct ShellState {
    /// Ctrl-A was typed and its command is still to come.
    pub escape_pending: bool,
    /// The levels of the lines, as far as the shell knows. Both are
    /// conventionally asserted on a freshly-opened port.
    pub dtr_on: bool,
    pub rts_on: bool,
    /// Bytes for the device that were not sent yet.
    pub typed: Vec<u8>,
}

/// What the shell is about.
pub struct ShellView {
    pub escape_pending: bool,
    pub dtr_on: bool,
    pub rts_on: bool,
    pub typed: Seq<u8>,
}

impl View for ShellState {
    type V = ShellView;

    open spec fn view(&self) -> ShellView {
        ShellView {
            escape_pending: self.escape_pending,
            dtr_on: self.dtr_on,
            rts_on: self.rts_on,
            typed: self.typed@,
        }
    }
}

/// The byte is this letter, in either case; `upper` is its capital.
pub open spec fn is_letter(b: u8, upper: u8) -> bool {
    b == upper || b == upper + 32
}

/// The shell after one more byte, and what that byte amounts to.
pub open spec fn fed(s: ShellView, b: u8) -> (ShellView, Key) {
    if !s.escape_pending {
        if b == CTRL_A {
            (ShellView { escape_pending: true, ..s }, Key::Noted)
        } else {
            (ShellView { typed: s.typed.push(b), ..s }, Key::Noted)
        }
    } else {
        let t = ShellView { escape_pending: false, ..s };
        if is_letter(b, 0x51) {
            (t, Key::Quit)
        } else if b == CTRL_A {
            (ShellView { typed: t.typed.push(CTRL_A), ..t }, Key::Noted)
        } else if b == 0x3f || is_letter(b, 0x48) {
            (t, Key::Help)
        } else if is_letter(b, 0x43) {
            (t, Key::Command(ShellCommand::Config))
        } else if is_letter(b, 0x56) {
            (t, Key::Command(ShellCommand::Ports))
        } else if is_letter(b, 0x42) {
            (t, Key::Command(ShellCommand::Break))
        } else if is_letter(b, 0x44) {
            (
                ShellView { dtr_on: !t.dtr_on, ..t },
                Key::Command(ShellCommand::Dtr(!t.dtr_on)),
            )
        } else if is_letter(b, 0x52) {
            (
                ShellView { rts_on: !t.rts_on, ..t },
                Key::Command(ShellCommand::Rts(!t.rts_on)),
            )
        } else if is_letter(b, 0x4c) {
            (t, Key::Command(ShellCommand::Lines))
        } else {
            (t, Key::Unknown(b))
        }
    }
}

/// The shell after some bytes, none of which needed anything to be done.
pub open spec fn fed_all(s: ShellView, bytes: Seq<u8>) -> ShellView
    decreases bytes.len(),
{
    if bytes.len() == 0 {
        s
    } else {
        fed(fed_all(s, bytes.drop_last()), bytes.last()).0
    }
}

/// The shell after a command failed: a line that was to change is as it was.
pub open spec fn undone(s: ShellView, c: ShellCommand) -> ShellView {
    match c {
        ShellCommand::Dtr(on) => ShellView { dtr_on: !on, ..s },
        ShellCommand::Rts(on) => ShellView { rts_on: !on, ..s },
        _ => s,
    }
}

impl ShellState {
    pub fn new() -> (s: Self)
        ensures
            s@ == (ShellView {
                escape_pending: false,
                dtr_on: true,
                rts_on: true,
                typed: Seq::empty(),
            }),
    {
        let s = ShellState {
            escape_pending: false,
            dtr_on: true,
            rts_on: true,
            typed: Vec::new(),
        };
        assert(s.typed@ =~= Seq::empty());
        s
    }

    /// Takes one typed byte.
    pub fn feed(&mut self, b: u8) -> (k: Key)
        ensures
            (final(self)@, k) == fed(old(self)@, b),
    {
        if !self.escape_pending {
            if b == CTRL_A {
                self.escape_pending = true;
            } else {
                self.typed.push(b);
            }
            return Key::Noted;
        }
        self.escape_pending = false;
        match b {
            0x51 | 0x71 => Key::Quit,
            1 => {
                self.typed.push(CTRL_A);
                Key::Noted
            },
            0x3f | 0x48 | 0x68 => Key::Help,
            0x43 | 0x63 => Key::Command(ShellCommand::Config),
            0x56 | 0x76 => Key::Command(ShellCommand::Ports),
            0x42 | 0x62 => Key::Command(ShellCommand::Break),
            0x44 | 0x64 => {
                self.dtr_on = !self.dtr_on;
                Key::Command(ShellCommand::Dtr(self.dtr_on))
            },
            0x52 | 0x72 => {
                self.rts_on = !self.rts_on;
                Key::Command(ShellCommand::Rts(self.rts_on))
            },
            0x4c | 0x6c => Key::Command(ShellCommand::Lines),
            _ => Key::Unknown(b),
        }
    }

    /// Takes out what was typed, to be sent to the device.
    pub fn take_typed(&mut self) -> (bytes: Vec<u8>)
        ensures
            bytes@ == old(self).typed@,
            final(self)@ == (ShellView { typed: Seq::empty(), ..old(self)@ }),
    {
        let mut bytes: Vec<u8> = Vec::new();
        bytes.append(&mut self.typed);
        assert(bytes@ =~= old(self).typed@);
        assert(self.typed@ =~= Seq::empty());
        bytes
    }

    /// A command failed: a line that was to change is as it was.
    pub fn undo(&mut self, c: ShellCommand)
        ensures
            final(self)@ == undone(old(self)@, c),
    {
        match c {
            ShellCommand::Dtr(on) => {
                self.dtr_on = !on;
            },
            ShellCommand::Rts(on) => {
                self.rts_on = !on;
            },
            _ => {},
        }
    }
}

/// Bytes without a Ctrl-A reach the device as they were typed.
pub proof fn law_plain_bytes_pass(s: ShellView, bytes: Seq<u8>)
    requires
        !s.escape_pending,
        !bytes.contains(CTRL_A),
    ensures
        fed_all(s, bytes) == (ShellView { typed: s.typed + bytes, ..s }),
    decreases bytes.len(),
{
    if bytes.len() > 0 {
        let front = bytes.drop_last();
        assert(!front.contains(CTRL_A)) by {
            if front.contains(CTRL_A) {
                let i = choose|i: int| 0 <= i < front.len() && front[i] == CTRL_A;
                assert(bytes[i] == CTRL_A);
            }
        }
        assert(bytes.contains(bytes.last()));
        law_plain_bytes_pass(s, front);
        assert((s.typed + front).push(bytes.last()) =~= s.typed + bytes);
    } else {
        assert(s.typed + bytes =~= s.typed);
    }
}

/// Ctrl-A twice types one Ctrl-A.
pub proof fn law_literal_escape(s: ShellView)
    requires
        !s.escape_pending,
    ensures
        fed(fed(s, CTRL_A).0, CTRL_A) == (
            (ShellView { typed: s.typed.push(CTRL_A), ..s }),
            Key::Noted,
        ),
{
}

/// A command that failed leaves the shell as it was before its escape, the
/// lines' levels in particular.
pub proof fn law_undo_restores_the_line(s: ShellView, b: u8)
    requires
        !s.escape_pending,
    ensures
        fed(fed(s, CTRL_A).0, b).1 matches Key::Command(c) ==> undone(
            fed(fed(s, CTRL_A).0, b).0,
            c,
        ) == s,
{
}

/// A shell session so far.
pub struct ShellRun {
    pub shell: ShellView,
    /// What was sent to the device.
    pub sent: Seq<u8>,
    /// The user quit; what is typed after that counts for nothing.
    pub quit: bool,
}

/// The session after one more byte. What was typed is sent before a command
/// and when the user quits, and else if `flush` says so; a command may fail.
pub open spec fn run_step(r: ShellRun, b: u8, flush: bool, fails: bool) -> ShellRun {
    if r.quit {
        r
    } else {
        let (s, k) = fed(r.shell, b);
        let t = match k {
            Key::Command(c) => if fails {
                undone(s, c)
            } else {
                s
            },
            _ => s,
        };
        if flush || k is Quit || k is Command {
            ShellRun {
                shell: ShellView { typed: Seq::empty(), ..t },
                sent: r.sent + t.typed,
                quit: k is Quit,
            }
        } else {
            ShellRun { shell: t, ..r }
        }
    }
}

/// The session after the bytes from `i` on.
pub open spec fn run_from(
    r: ShellRun,
    bytes: Seq<u8>,
    i: int,
    flush: spec_fn(int) -> bool,
    fails: spec_fn(int) -> bool,
) -> ShellRun
    decreases bytes.len() - i,
{
    if i >= bytes.len() {
        r
    } else {
        run_from(run_step(r, bytes[i], flush(i), fails(i)), bytes, i + 1, flush, fails)
    }
}

/// What of some input is for the device, `pending` telling whether a Ctrl-A
/// went before: all up to Ctrl-A Q, each Ctrl-A removed together with the byte
/// after it, but for Ctrl-A Ctrl-A, which stands for one Ctrl-A.
pub open spec fn for_device(pending: bool, bytes: Seq<u8>) -> Seq<u8>
    decreases bytes.len(),
{
    if bytes.len() == 0 {
        Seq::empty()
    } else {
        let b = bytes[0];
        let rest = bytes.skip(1);
        if !pending && b == CTRL_A {
            for_device(true, rest)
        } else if !pending || b == CTRL_A {
            seq![b] + for_device(false, rest)
        } else if is_letter(b, 0x51) {
            Seq::empty()
        } else {
            for_device(false, rest)
        }
    }
}

proof fn lemma_run_from(
    r: ShellRun,
    bytes: Seq<u8>,
    i: int,
    flush: spec_fn(int) -> bool,
    fails: spec_fn(int) -> bool,
)
    requires
        0 <= i <= bytes.len(),
    ensures
        ({
            let end = run_from(r, bytes, i, flush, fails);
            end.sent + end.shell.typed == r.sent + r.shell.typed + (if r.quit {
                Seq::empty()
            } else {
                for_device(r.shell.escape_pending, bytes.skip(i))
            })
        }),
    decreases bytes.len() - i,
{
    let all = r.sent + r.shell.typed;
    assert(all + Seq::<u8>::empty() =~= all);
    if i < bytes.len() {
        let b = bytes[i];
        let next = run_step(r, b, flush(i), fails(i));
        lemma_run_from(next, bytes, i + 1, flush, fails);
        let tail = bytes.skip(i);
        assert(tail[0] == b);
        assert(tail.skip(1) =~= bytes.skip(i + 1));
        let later = for_device(false, bytes.skip(i + 1));
        if !r.quit {
            let added = if (!r.shell.escape_pending && b != CTRL_A) || (r.shell.escape_pending && b
                == CTRL_A) {
                seq![b]
            } else {
                Seq::empty()
            };
            assert(next.sent + next.shell.typed =~= all + added);
            assert((all + seq![b]) + later =~= all + (seq![b] + later));
            assert((all + Seq::<u8>::empty()) + Seq::<u8>::empty() =~= all);
        }
    }
}

/// Over a whole session the device is sent exactly what of the input is for
/// it, in order: whenever what was typed is sent, and whichever commands fail.
pub proof fn law_input_reaches_the_device(
    bytes: Seq<u8>,
    flush: spec_fn(int) -> bool,
    fails: spec_fn(int) -> bool,
)
    ensures
        ({
            let start = ShellRun {
                shell: ShellView {
                    escape_pending: false,
                    dtr_on: true,
                    rts_on: true,
                    typed: Seq::empty(),
                },
                sent: Seq::empty(),
                quit: false,
            };
            let end = run_from(start, bytes, 0, flush, fails);
            end.sent + end.shell.typed == for_device(false, bytes)
        }),
{
    let start = ShellRun {
        shell: ShellView {
            escape_pending: false,
            dtr_on: true,
            rts_on: true,
            typed: Seq::empty(),
        },
        sent: Seq::empty(),
        quit: false,
    };
    lemma_run_from(start, bytes, 0, flush, fails);
    assert(bytes.skip(0) =~= bytes);
    let meant = for_device(false, bytes);
    assert(Seq::<u8>::empty() + Seq::<u8>::empty() + meant =~= meant);
}

// ---------- What the shell asks for ----------

/// How long the BREAK pulse of the shell is.
pub const SHELL_BREAK_MS: u32 = 250;

/// The call that a command makes. It names no device.
pub fn call_of(c: ShellCommand) -> (call: DeviceCall)
    ensures
        match c {
            ShellCommand::Config => call is Status,
            ShellCommand::Ports => call is ListPorts,
            ShellCommand::Break => call matches DeviceCall::SendBreak(p) && p.device_id is None
                && p.duration_ms == SHELL_BREAK_MS,
            ShellCommand::Dtr(on) => call matches DeviceCall::SetDtr(p) && p.device_id is None
                && p.on == on,
            ShellCommand::Rts(on) => call matches DeviceCall::SetRts(p) && p.device_id is None
                && p.on == on,
            ShellCommand::Lines => call matches DeviceCall::ReadModemStatus(p) && p.device_id
                is None,
        },
{
    match c {
        ShellCommand::Config => DeviceCall::Status,
        ShellCommand::Ports => DeviceCall::ListPorts,
        ShellCommand::Break => DeviceCall::SendBreak(
            SendBreakParams { device_id: None, duration_ms: SHELL_BREAK_MS },
        ),
        ShellCommand::Dtr(on) => DeviceCall::SetDtr(SetLineParams { device_id: None, on }),
        ShellCommand::Rts(on) => DeviceCall::SetRts(SetLineParams { device_id: None, on }),
        ShellCommand::Lines => DeviceCall::ReadModemStatus(DeviceTarget { device_id: None }),
    }
}

// ---------- What the shell says ----------

/// The greeting, shown on a terminal.
pub fn greeting() -> (s: &'static str)
    ensures
        s@
            == "\r\n[tether shell — Ctrl-A Q quit, Ctrl-A B/D/R/L (break/dtr/rts/lines), Ctrl-A C/V (config/ports), Ctrl-A ? help]\r\n\r\n"@,
{
    "\r\n[tether shell — Ctrl-A Q quit, Ctrl-A B/D/R/L (break/dtr/rts/lines), Ctrl-A C/V (config/ports), Ctrl-A ? help]\r\n\r\n"
}

/// The help text.
pub fn help() -> (s: &'static str)
    ensures
        s@
            == "\r\n[Ctrl-A Q  : quit]\r\n[Ctrl-A C  : show serial config]\r\n[Ctrl-A V  : list available ports]\r\n[Ctrl-A B  : send BREAK]\r\n[Ctrl-A D  : toggle DTR]\r\n[Ctrl-A R  : toggle RTS]\r\n[Ctrl-A L  : show modem status (CTS/DSR/RI/DCD)]\r\n[Ctrl-A ?  : help]\r\n[Ctrl-A ^A : send literal Ctrl-A]\r\n\r\n"@,
{
    "\r\n[Ctrl-A Q  : quit]\r\n[Ctrl-A C  : show serial config]\r\n[Ctrl-A V  : list available ports]\r\n[Ctrl-A B  : send BREAK]\r\n[Ctrl-A D  : toggle DTR]\r\n[Ctrl-A R  : toggle RTS]\r\n[Ctrl-A L  : show modem status (CTS/DSR/RI/DCD)]\r\n[Ctrl-A ?  : help]\r\n[Ctrl-A ^A : send literal Ctrl-A]\r\n\r\n"
}

/// How a command is called in messages.
pub open spec fn command_name(c: ShellCommand) -> Seq<char> {
    match c {
        ShellCommand::Config => "config"@,
        ShellCommand::Ports => "list_ports"@,
        ShellCommand::Break => "break"@,
        ShellCommand::Dtr(_) => "DTR"@,
        ShellCommand::Rts(_) => "RTS"@,
        ShellCommand::Lines => "lines"@,
    }
}

fn name_of(c: ShellCommand) -> (s: &'static str)
    ensures
        s@ == command_name(c),
{
    match c {
        ShellCommand::Config => "config",
        ShellCommand::Ports => "list_ports",
        ShellCommand::Break => "break",
        ShellCommand::Dtr(_) => "DTR",
        ShellCommand::Rts(_) => "RTS",
        ShellCommand::Lines => "lines",
    }
}

/// What is said when a command failed, or (`None`) was not answered in time.
pub fn failure_text(c: ShellCommand, error: &Option<String>) -> (s: String)
    ensures
        s@ == (match *error {
            Some(e) => "\r\n["@ + command_name(c) + " error: "@ + e@ + "]\r\n"@,
            None => "\r\n["@ + command_name(c) + ": timeout]\r\n"@,
        }),
{
    match error {
        Some(e) => cat5("\r\n[", name_of(c), " error: ", e.as_str(), "]\r\n"),
        None => cat3("\r\n[", name_of(c), ": timeout]\r\n"),
    }
}

/// What is said after a BREAK pulse.
pub fn break_text() -> (s: &'static str)
    ensures
        s@ == "\r\n[break: 250ms]\r\n"@,
{
    "\r\n[break: 250ms]\r\n"
}

/// What is said after a line was driven: `name` is `DTR` or `RTS`.
pub fn line_text(name: &str, on: bool) -> (s: String)
    ensures
        s@ == "\r\n["@ + name@ + ": "@ + (if on {
            "asserted"@
        } else {
            "deasserted"@
        }) + "]\r\n"@,
{
    let level = if on {
        "asserted"
    } else {
        "deasserted"
    };
    cat5("\r\n[", name, ": ", level, "]\r\n")
}

pub open spec fn bit(b: bool) -> Seq<char> {
    if b {
        "1"@
    } else {
        "0"@
    }
}

pub fn bit_text(b: bool) -> (s: &'static str)
    ensures
        s@ == bit(b),
{
    if b {
        "1"
    } else {
        "0"
    }
}

/// The modem lines.
pub fn lines_text(m: &ReadModemStatusResult) -> (s: String)
    ensures
        s@ == "\r\n[lines: CTS="@ + bit(m.cts) + " DSR="@ + bit(m.dsr) + " RI="@ + bit(m.ri)
            + " DCD="@ + bit(m.dcd) + "]\r\n"@,
{
    let mut s = cat5("\r\n[lines: CTS=", bit_text(m.cts), " DSR=", bit_text(m.dsr), " RI=");
    s.append(bit_text(m.ri));
    s.append(" DCD=");
    s.append(bit_text(m.dcd));
    s.append("]\r\n");
    s
}

/// The first letter of a word as a capital; `?` for no word.
pub open spec fn capital(word: Seq<char>) -> char {
    if word.len() == 0 {
        '?'
    } else if 'a' <= word[0] <= 'z' {
        ((word[0] as u8 - 32) as u8) as char
    } else {
        word[0]
    }
}

pub fn capital_of(word: &str) -> (c: char)
    ensures
        c == capital(word@),
{
    if word.unicode_len() == 0 {
        return '?';
    }
    let c: char = word.get_char(0);
    if 'a' <= c && c <= 'z' {
        (c as u8 - 32) as char
    } else {
        c
    }
}

/// `<baud> <data bits><parity><stop bits> flow=<flow control>`.
pub open spec fn config_line(d: DeviceInfo) -> Seq<char> {
    "\r\n[config: "@ + decimal(d.baud as nat) + " "@ + decimal(d.data_bits as nat).push(
        capital(d.parity@),
    ) + decimal(d.stop_bits as nat) + " flow="@ + d.flow_control@ + "]\r\n"@
}

/// The live serial configuration.
pub fn config_text(d: &DeviceInfo) -> (s: String)
    ensures
        s@ == config_line(*d),
{
    let mut bits = dec_u64(d.data_bits as u64);
    bits.push(capital_of(d.parity.as_str()));
    let mut s = cat5(
        "\r\n[config: ",
        dec_u64(d.baud as u64).as_str(),
        " ",
        bits.as_str(),
        dec_u64(d.stop_bits as u64).as_str(),
    );
    s.append(" flow=");
    s.append(d.flow_control.as_str());
    s.append("]\r\n");
    s
}

/// The line for one port: its product or else its manufacturer describes it.
pub open spec fn port_line(p: PortInfo) -> Seq<char> {
    let desc = match (p.product, p.manufacturer) {
        (Some(x), _) => x@,
        (None, Some(x)) => x@,
        (None, None) => ""@,
    };
    if desc.len() == 0 {
        "  "@ + p.path@ + "  ("@ + p.kind@ + ")\r\n"@
    } else {
        "  "@ + p.path@ + "  ("@ + p.kind@ + ")  "@ + desc + "\r\n"@
    }
}

fn port_line_text(p: &PortInfo) -> (s: String)
    ensures
        s@ == port_line(*p),
{
    proof {
        reveal_strlit("");
    }
    let desc = match (&p.product, &p.manufacturer) {
        (Some(x), _) => x.as_str(),
        (None, Some(x)) => x.as_str(),
        (None, None) => "",
    };
    if desc.unicode_len() == 0 {
        cat5("  ", p.path.as_str(), "  (", p.kind.as_str(), ")\r\n")
    } else {
        let mut s = cat5("  ", p.path.as_str(), "  (", p.kind.as_str(), ")  ");
        s.append(desc);
        s.append("\r\n");
        s
    }
}

/// The list of ports, as the pieces to print.
pub open spec fn ports_pieces(ports: Seq<PortInfo>) -> Seq<Seq<char>> {
    if ports.len() == 0 {
        seq!["\r\n[no serial ports detected]\r\n"@]
    } else {
        seq!["\r\n[ports]\r\n"@] + Seq::new(ports.len(), |i: int| port_line(ports[i])) + seq![
            "\r\n"@,
        ]
    }
}

pub fn ports_text(ports: &Vec<PortInfo>) -> (pieces: Vec<String>)
    ensures
        views(pieces@) == ports_pieces(ports@),
{
    let mut pieces: Vec<String> = Vec::new();
    if ports.len() == 0 {
        push_line(&mut pieces, "\r\n[no serial ports detected]\r\n".to_owned());
        assert(views(pieces@) =~= ports_pieces(ports@));
        return pieces;
    }
    push_line(&mut pieces, "\r\n[ports]\r\n".to_owned());
    let mut i: usize = 0;
    assert(views(pieces@) =~= seq!["\r\n[ports]\r\n"@] + Seq::new(
        0,
        |i: int| port_line(ports@[i]),
    ));
    while i < ports.len()
        invariant
            i <= ports@.len(),
            views(pieces@) == seq!["\r\n[ports]\r\n"@] + Seq::new(
                i as nat,
                |i: int| port_line(ports@[i]),
            ),
        decreases ports@.len() - i,
    {
        push_line(&mut pieces, port_line_text(&ports[i]));
        i = i + 1;
        assert(views(pieces@) =~= seq!["\r\n[ports]\r\n"@] + Seq::new(
            i as nat,
            |i: int| port_line(ports@[i]),
        ));
    }
    push_line(&mut pieces, "\r\n".to_owned());
    assert(views(pieces@) =~= ports_pieces(ports@));
    pieces
}

/// What is said about a byte that is no command.
pub fn unknown_escape_text(b: u8) -> (s: String)
    ensures
        s@ == "\r\n[unknown escape: Ctrl-A "@.push(b as char) + "]\r\n"@,
{
    let mut s = "\r\n[unknown escape: Ctrl-A ".to_owned();
    s.push(b as char);
    s.append("]\r\n");
    s
}

} // verus!
