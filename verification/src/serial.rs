//! Serial settings, and the decisions of the task that owns a serial port.
//!
//! One owner task per device opens the port, runs an I/O session on it until
//! the device disappears, and reopens it after a growing pause. The task
//! itself performs the I/O; what it does after each event is decided here.

use vstd::prelude::*;
use vstd::string::*;

use crate::buffer::RingBuffer;
use crate::state::{DeviceEvent, DeviceEventKind, DeviceState};
use crate::text::{ascii_lower, cat2, lower, opt_view, str_eq};

verus! {

// ---------- Settings ----------

#[derive(Debug, Clone, Copy, PartialEq, Eq, Structural)]
pub enum DataBits {
    Five,
    Six,
    Seven,
    Eight,
}

#[derive(Debug, Clone, Copy, PartialEq, Eq, Structural)]
pub enum Parity {
    Disabled,
    Odd,
    Even,
}

#[derive(Debug, Clone, Copy, PartialEq, Eq, Structural)]
pub enum StopBits {
    One,
    Two,
}

#[derive(Debug, Clone, Copy, PartialEq, Eq, Structural)]
pub enum FlowControl {
    Disabled,
    Software,
    Hardware,
}

impl DataBits {
    pub open spec fn count(self) -> int {
        match self {
            DataBits::Five => 5,
            DataBits::Six => 6,
            DataBits::Seven => 7,
            DataBits::Eight => 8,
        }
    }

    pub open spec fn name(self) -> Seq<char> {
        match self {
            DataBits::Five => "5"@,
            DataBits::Six => "6"@,
            DataBits::Seven => "7"@,
            DataBits::Eight => "8"@,
        }
    }

    /// The setting for a number of bits, where there is one.
    pub open spec fn of_count(n: int) -> Option<DataBits> {
        if n == 5 {
            Some(DataBits::Five)
        } else if n == 6 {
            Some(DataBits::Six)
        } else if n == 7 {
            Some(DataBits::Seven)
        } else if n == 8 {
            Some(DataBits::Eight)
        } else {
            None
        }
    }

    pub fn as_str(self) -> (s: &'static str)
        ensures
            s@ == self.name(),
    {
        match self {
            DataBits::Five => "5",
            DataBits::Six => "6",
            DataBits::Seven => "7",
            DataBits::Eight => "8",
        }
    }

    pub fn as_u8(self) -> (n: u8)
        ensures
            n == self.count(),
    {
        match self {
            DataBits::Five => 5,
            DataBits::Six => 6,
            DataBits::Seven => 7,
            DataBits::Eight => 8,
        }
    }

    pub fn from_u8(n: u8) -> (bits: Option<Self>)
        ensures
            bits == Self::of_count(n as int),
    {
        match n {
            5 => Some(DataBits::Five),
            6 => Some(DataBits::Six),
            7 => Some(DataBits::Seven),
            8 => Some(DataBits::Eight),
            _ => None,
        }
    }
}

impl Parity {
    pub open spec fn name(self) -> Seq<char> {
        match self {
            Parity::Disabled => "none"@,
            Parity::Odd => "odd"@,
            Parity::Even => "even"@,
        }
    }

    /// The parity that a word means, in any case, spelled out or abbreviated.
    pub open spec fn of_word(s: Seq<char>) -> Option<Parity> {
        let l = lower(s);
        if l == "none"@ || l == "n"@ {
            Some(Parity::Disabled)
        } else if l == "odd"@ || l == "o"@ {
            Some(Parity::Odd)
        } else if l == "even"@ || l == "e"@ {
            Some(Parity::Even)
        } else {
            None
        }
    }

    pub fn as_str(self) -> (s: &'static str)
        ensures
            s@ == self.name(),
    {
        match self {
            Parity::Disabled => "none",
            Parity::Odd => "odd",
            Parity::Even => "even",
        }
    }

    pub fn parse(s: &str) -> (parity: Option<Self>)
        ensures
            parity == Self::of_word(s@),
    {
        let l = ascii_lower(s);
        let w = l.as_str();
        if str_eq(w, "none") || str_eq(w, "n") {
            Some(Parity::Disabled)
        } else if str_eq(w, "odd") || str_eq(w, "o") {
            Some(Parity::Odd)
        } else if str_eq(w, "even") || str_eq(w, "e") {
            Some(Parity::Even)
        } else {
            None
        }
    }
}

impl StopBits {
    pub open spec fn count(self) -> int {
        match self {
            StopBits::One => 1,
            StopBits::Two => 2,
        }
    }

    pub open spec fn name(self) -> Seq<char> {
        match self {
            StopBits::One => "1"@,
            StopBits::Two => "2"@,
        }
    }

    pub open spec fn of_count(n: int) -> Option<StopBits> {
        if n == 1 {
            Some(StopBits::One)
        } else if n == 2 {
            Some(StopBits::Two)
        } else {
            None
        }
    }

    pub fn as_str(self) -> (s: &'static str)
        ensures
            s@ == self.name(),
    {
        match self {
            StopBits::One => "1",
            StopBits::Two => "2",
        }
    }

    pub fn as_u8(self) -> (n: u8)
        ensures
            n == self.count(),
    {
        match self {
            StopBits::One => 1,
            StopBits::Two => 2,
        }
    }

    pub fn from_u8(n: u8) -> (bits: Option<Self>)
        ensures
            bits == Self::of_count(n as int),
    {
        match n {
            1 => Some(StopBits::One),
            2 => Some(StopBits::Two),
            _ => None,
        }
    }
}

impl FlowControl {
    pub open spec fn name(self) -> Seq<char> {
        match self {
            FlowControl::Disabled => "none"@,
            FlowControl::Software => "software"@,
            FlowControl::Hardware => "hardware"@,
        }
    }

    /// The flow control that a word means, in any case, under any of its names.
    pub open spec fn of_word(s: Seq<char>) -> Option<FlowControl> {
        let l = lower(s);
        if l == "none"@ || l == "off"@ {
            Some(FlowControl::Disabled)
        } else if l == "software"@ || l == "soft"@ || l == "xon"@ || l == "xon/xoff"@ {
            Some(FlowControl::Software)
        } else if l == "hardware"@ || l == "hard"@ || l == "rts/cts"@ || l == "rtscts"@ {
            Some(FlowControl::Hardware)
        } else {
            None
        }
    }

    pub fn as_str(self) -> (s: &'static str)
        ensures
            s@ == self.name(),
    {
        match self {
            FlowControl::Disabled => "none",
            FlowControl::Software => "software",
            FlowControl::Hardware => "hardware",
        }
    }

    pub fn parse(s: &str) -> (flow: Option<Self>)
        ensures
            flow == Self::of_word(s@),
    {
        let l = ascii_lower(s);
        let w = l.as_str();
        if str_eq(w, "none") || str_eq(w, "off") {
            Some(FlowControl::Disabled)
        } else if str_eq(w, "software") || str_eq(w, "soft") || str_eq(w, "xon") || str_eq(
            w,
            "xon/xoff",
        ) {
            Some(FlowControl::Software)
        } else if str_eq(w, "hardware") || str_eq(w, "hard") || str_eq(w, "rts/cts") || str_eq(
            w,
            "rtscts",
        ) {
            Some(FlowControl::Hardware)
        } else {
            None
        }
    }
}

/// Every numeric setting is read back from its number.
pub proof fn law_counts_round_trip(data: DataBits, stop: StopBits)
    ensures
        DataBits::of_count(data.count()) == Some(data),
        StopBits::of_count(stop.count()) == Some(stop),
{
}

/// Every named setting is read back from its name.
pub proof fn law_names_round_trip(parity: Parity, flow: FlowControl)
    ensures
        Parity::of_word(parity.name()) == Some(parity),
        FlowControl::of_word(flow.name()) == Some(flow),
{
    reveal_strlit("none");
    reveal_strlit("n");
    reveal_strlit("odd");
    reveal_strlit("o");
    reveal_strlit("even");
    reveal_strlit("off");
    reveal_strlit("software");
    reveal_strlit("soft");
    reveal_strlit("xon");
    reveal_strlit("xon/xoff");
    reveal_strlit("hardware");
    assert(lower(parity.name()) =~= parity.name());
    assert(lower(flow.name()) =~= flow.name());
    assert("odd"@.len() == 3 && "none"@.len() == 4 && "even"@.len() == 4 && "n"@.len() == 1
        && "o"@.len() == 1);
    assert("even"@[0] == 'e' && "none"@[0] == 'n');
    assert("software"@[0] == 's' && "xon/xoff"@[0] == 'x' && "hardware"@[0] == 'h');
}

#[derive(Debug, Clone)]
pub struct SerialConfig {
    pub path: String,
    pub baud: u32,
    pub data_bits: DataBits,
    pub parity: Parity,
    pub stop_bits: StopBits,
    pub flow_control: FlowControl,
}

/// A partial update of the settings; absent fields keep their value.
#[derive(Debug, Clone, Copy, PartialEq, Eq, Structural)]
pub struct SerialSettings {
    pub baud: Option<u32>,
    pub data_bits: Option<DataBits>,
    pub parity: Option<Parity>,
    pub stop_bits: Option<StopBits>,
    pub flow_control: Option<FlowControl>,
}

pub open spec fn or_keep<T>(new: Option<T>, current: T) -> T {
    match new {
        Some(v) => v,
        None => current,
    }
}

impl SerialConfig {
    /// This configuration with the given settings replaced.
    pub open spec fn updated(self, s: SerialSettings) -> SerialConfig {
        SerialConfig {
            path: self.path,
            baud: or_keep(s.baud, self.baud),
            data_bits: or_keep(s.data_bits, self.data_bits),
            parity: or_keep(s.parity, self.parity),
            stop_bits: or_keep(s.stop_bits, self.stop_bits),
            flow_control: or_keep(s.flow_control, self.flow_control),
        }
    }

    pub fn apply(&mut self, s: &SerialSettings)
        ensures
            *final(self) == old(self).updated(*s),
    {
        if let Some(v) = s.baud {
            self.baud = v;
        }
        if let Some(v) = s.data_bits {
            self.data_bits = v;
        }
        if let Some(v) = s.parity {
            self.parity = v;
        }
        if let Some(v) = s.stop_bits {
            self.stop_bits = v;
        }
        if let Some(v) = s.flow_control {
            self.flow_control = v;
        }
    }

    /// A copy of this configuration.
    pub fn duplicate(&self) -> (c: SerialConfig)
        ensures
            c == *self,
    {
        SerialConfig {
            path: self.path.clone(),
            baud: self.baud,
            data_bits: self.data_bits,
            parity: self.parity,
            stop_bits: self.stop_bits,
            flow_control: self.flow_control,
        }
    }
}

/// Of two updates the later one wins where both speak; what neither mentions
/// keeps its value; and the port's path never changes.
pub proof fn law_updates_compose(cfg: SerialConfig, a: SerialSettings, b: SerialSettings)
    ensures
        cfg.updated(a).updated(b).path == cfg.path,
        cfg.updated(a).updated(b) == cfg.updated(
            SerialSettings {
                baud: if b.baud is Some { b.baud } else { a.baud },
                data_bits: if b.data_bits is Some { b.data_bits } else { a.data_bits },
                parity: if b.parity is Some { b.parity } else { a.parity },
                stop_bits: if b.stop_bits is Some { b.stop_bits } else { a.stop_bits },
                flow_control: if b.flow_control is Some { b.flow_control } else { a.flow_control },
            },
        ),
{
}

/// One change to the live port.
#[derive(Debug, Clone, Copy, PartialEq, Eq, Structural)]
pub enum SettingChange {
    Baud(u32),
    DataBits(DataBits),
    Parity(Parity),
    StopBits(StopBits),
    FlowControl(FlowControl),
}

pub open spec fn zero_or_one(change: Option<SettingChange>) -> Seq<SettingChange> {
    match change {
        Some(c) => seq![c],
        None => Seq::empty(),
    }
}

fn push_change(v: &mut Vec<SettingChange>, change: Option<SettingChange>)
    ensures
        final(v)@ == old(v)@ + zero_or_one(change),
{
    if let Some(c) = change {
        v.push(c);
    }
    assert(v@ =~= old(v)@ + zero_or_one(change));
}

impl SerialSettings {
    pub open spec fn baud_change(self) -> Option<SettingChange> {
        match self.baud {
            Some(v) => Some(SettingChange::Baud(v)),
            None => None,
        }
    }

    pub open spec fn data_bits_change(self) -> Option<SettingChange> {
        match self.data_bits {
            Some(v) => Some(SettingChange::DataBits(v)),
            None => None,
        }
    }

    pub open spec fn parity_change(self) -> Option<SettingChange> {
        match self.parity {
            Some(v) => Some(SettingChange::Parity(v)),
            None => None,
        }
    }

    pub open spec fn stop_bits_change(self) -> Option<SettingChange> {
        match self.stop_bits {
            Some(v) => Some(SettingChange::StopBits(v)),
            None => None,
        }
    }

    pub open spec fn flow_control_change(self) -> Option<SettingChange> {
        match self.flow_control {
            Some(v) => Some(SettingChange::FlowControl(v)),
            None => None,
        }
    }

    /// The changes to make on the live port, in the order they are made.
    pub open spec fn changes(self) -> Seq<SettingChange> {
        zero_or_one(self.baud_change()) + zero_or_one(self.data_bits_change()) + zero_or_one(
            self.parity_change(),
        ) + zero_or_one(self.stop_bits_change()) + zero_or_one(self.flow_control_change())
    }

    /// No setting is given.
    pub open spec fn is_empty_spec(self) -> bool {
        self.baud is None && self.data_bits is None && self.parity is None && self.stop_bits is None
            && self.flow_control is None
    }

    pub fn is_empty(&self) -> (b: bool)
        ensures
            b == self.is_empty_spec(),
    {
        self.baud.is_none() && self.data_bits.is_none() && self.parity.is_none()
            && self.stop_bits.is_none() && self.flow_control.is_none()
    }

    pub fn steps(&self) -> (v: Vec<SettingChange>)
        ensures
            v@ == self.changes(),
    {
        let mut v: Vec<SettingChange> = Vec::new();
        let baud = match self.baud {
            Some(x) => Some(SettingChange::Baud(x)),
            None => None,
        };
        push_change(&mut v, baud);
        assert(v@ =~= zero_or_one(self.baud_change()));
        let data_bits = match self.data_bits {
            Some(x) => Some(SettingChange::DataBits(x)),
            None => None,
        };
        push_change(&mut v, data_bits);
        let parity = match self.parity {
            Some(x) => Some(SettingChange::Parity(x)),
            None => None,
        };
        push_change(&mut v, parity);
        let stop_bits = match self.stop_bits {
            Some(x) => Some(SettingChange::StopBits(x)),
            None => None,
        };
        push_change(&mut v, stop_bits);
        let flow_control = match self.flow_control {
            Some(x) => Some(SettingChange::FlowControl(x)),
            None => None,
        };
        push_change(&mut v, flow_control);
        v
    }
}

// ---------- The owner task ----------

/// Pause before the first reopen attempt of an outage.
pub const INITIAL_BACKOFF_MS: u64 = 500;

/// Longest pause between reopen attempts.
pub const MAX_BACKOFF_MS: u64 = 10000;

/// Brief gap before the first reopen attempt after a session ended, so a
/// flapping device doesn't pin a CPU.
pub const REOPEN_GAP_MS: u64 = 200;

/// How the port was opened: with terminal settings, or as a plain descriptor
/// (PTYs, pipes) that takes none.
#[derive(Debug, Clone, Copy, PartialEq, Eq, Structural)]
pub enum Backend {
    Real,
    Fd,
}

/// Where the owner task stands.
#[derive(Debug, Clone, Copy, PartialEq, Eq, Structural)]
pub enum OwnerPhase {
    /// About to open the port.
    Opening,
    /// Pausing after a failed open.
    Waiting,
    /// An I/O session runs on the open port.
    Online(Backend),
    /// Pausing briefly after a session ended.
    Gap,
    /// Closed on request; waits for `connect_device`.
    Parked,
}

/// What kind of failure a client is told about.
#[derive(Debug, Clone, Copy, PartialEq, Eq, Structural)]
pub enum FaultKind {
    NotConnected,
    Unsupported,
    Other,
}

/// A failed operation on the port.
#[derive(Debug, Clone)]
pub struct IoFault {
    pub kind: FaultKind,
    pub message: String,
}

impl IoFault {
    pub open spec fn says(&self, kind: FaultKind, message: Seq<char>) -> bool {
        self.kind == kind && self.message@ == message
    }

    pub fn new(kind: FaultKind, message: &str) -> (f: Self)
        ensures
            f.says(kind, message@),
    {
        IoFault { kind, message: message.to_owned() }
    }
}

/// A request to the owner task other than a write.
#[derive(Debug, Clone, Copy, PartialEq, Eq, Structural)]
pub enum ControlMsg {
    Apply(SerialSettings),
    SendBreak(u32),
    SetDtr(bool),
    SetRts(bool),
    ReadModem,
    Disconnect,
    Connect,
}

/// What can happen while no port is open.
#[derive(Debug, Clone, Copy, PartialEq, Eq, Structural)]
pub enum WaitEvent {
    TimerElapsed,
    ForceReconnect,
    WriteRequested,
    Control(ControlMsg),
}

/// What the task does then: answer the request, and whether to try opening.
#[derive(Debug, Clone)]
pub enum WaitStep {
    KeepWaiting,
    Retry,
    Refuse(IoFault),
    RefuseAndRetry(IoFault),
    Ack,
    AckAndRetry,
}

/// What can happen during an I/O session.
#[derive(Debug, Clone)]
pub enum IoEvent {
    ForceReconnect,
    ControlClosed,
    WriterClosed,
    Control(ControlMsg),
    WriteRequested,
    /// A write ended; whether every byte went out.
    WriteFinished(bool),
    ReadEof,
    ReadData(Vec<u8>),
    ReadError(String),
}

/// What the task does then.
#[derive(Debug, Clone)]
pub enum IoStep {
    Continue,
    /// The session is over, for this reason.
    End(String),
    /// Change the live port; then report to `apply_finished`.
    Apply(SerialSettings),
    /// Operate the port's lines and answer with what the port said.
    Operate(ControlMsg),
    Refuse(IoFault),
    Ack,
    AckAndEnd(String),
    /// Write the bytes; a success is answered with this sequence number.
    Write(u64),
}

/// The owner task's own state.
#[derive(Debug, Clone, Copy)]
pub struct SerialOwner {
    pub phase: OwnerPhase,
    pub backoff_ms: u64,
}

/// The pause after one of `ms`: twice as long, up to the limit.
pub open spec fn next_backoff(ms: u64) -> int {
    if ms * 2 <= MAX_BACKOFF_MS {
        ms * 2
    } else {
        MAX_BACKOFF_MS as int
    }
}

/// The pause before the reopen attempt that follows `failures` failed ones.
pub open spec fn backoff_after(failures: nat) -> int
    decreases failures,
{
    if failures == 0 {
        INITIAL_BACKOFF_MS as int
    } else {
        next_backoff(backoff_after((failures - 1) as nat) as u64)
    }
}

/// The pause never leaves its limits, however long the outage.
pub proof fn law_backoff_bounded(failures: nat)
    ensures
        INITIAL_BACKOFF_MS <= backoff_after(failures) <= MAX_BACKOFF_MS,
    decreases failures,
{
    if failures > 0 {
        law_backoff_bounded((failures - 1) as nat);
    }
}

/// Where the owner stands after an event that found it without an open port.
pub open spec fn phase_after_wait(phase: OwnerPhase, event: WaitEvent) -> OwnerPhase {
    match event {
        WaitEvent::Control(ControlMsg::Disconnect) => OwnerPhase::Parked,
        WaitEvent::Control(ControlMsg::Connect) => if phase is Parked {
            OwnerPhase::Opening
        } else {
            phase
        },
        WaitEvent::TimerElapsed | WaitEvent::ForceReconnect | WaitEvent::Control(
            ControlMsg::Apply(_),
        ) => if phase is Parked {
            phase
        } else {
            OwnerPhase::Opening
        },
        _ => phase,
    }
}

impl SerialOwner {
    /// The device counts as connected exactly while a session runs, is parked
    /// only on request, and the pause stays within its limits.
    pub open spec fn wf(&self, state: DeviceState) -> bool {
        &&& state.connected <==> self.phase is Online
        &&& self.phase is Parked ==> state.explicitly_disconnected
        &&& state.explicitly_disconnected ==> self.phase is Parked || self.phase is Online
        &&& INITIAL_BACKOFF_MS <= self.backoff_ms <= MAX_BACKOFF_MS
    }

    pub fn new() -> (o: Self)
        ensures
            o.phase is Opening,
            o.backoff_ms == INITIAL_BACKOFF_MS,
            forall|s: DeviceState| !s.connected && !s.explicitly_disconnected ==> o.wf(s),
    {
        SerialOwner { phase: OwnerPhase::Opening, backoff_ms: INITIAL_BACKOFF_MS }
    }

    /// The port was opened. Returns the event to broadcast.
    pub fn opened(&mut self, state: &mut DeviceState, backend: Backend, now_ms: u64) -> (event:
        DeviceEvent)
        requires
            old(self).wf(*old(state)),
            old(self).phase is Opening,
        ensures
            final(self).wf(*final(state)),
            final(self).phase == OwnerPhase::Online(backend),
            final(self).backoff_ms == INITIAL_BACKOFF_MS,
            *final(state) == (DeviceState {
                connected: true,
                last_open_at: Some(now_ms),
                last_disconnect_reason: None,
                consecutive_open_failures: 0,
                ..*old(state)
            }),
            event.kind is Reconnected,
            event.detail is None,
    {
        self.phase = OwnerPhase::Online(backend);
        self.backoff_ms = INITIAL_BACKOFF_MS;
        state.connected = true;
        state.last_open_at = Some(now_ms);
        state.last_disconnect_reason = None;
        state.consecutive_open_failures = 0;
        DeviceEvent { kind: DeviceEventKind::Reconnected, detail: None }
    }

    /// Opening the port failed. Returns how long to wait before trying again.
    pub fn open_failed(&mut self, state: &mut DeviceState, reason: &str) -> (wait_ms: u64)
        requires
            old(self).wf(*old(state)),
            old(self).phase is Opening,
            old(state).consecutive_open_failures < u64::MAX,
        ensures
            final(self).wf(*final(state)),
            final(self).phase is Waiting,
            wait_ms == old(self).backoff_ms,
            final(self).backoff_ms == next_backoff(old(self).backoff_ms),
            opt_view(final(state).last_disconnect_reason) == Some(reason@),
            *final(state) == (DeviceState {
                connected: false,
                last_disconnect_reason: final(state).last_disconnect_reason,
                consecutive_open_failures: (old(state).consecutive_open_failures + 1) as u64,
                ..*old(state)
            }),
    {
        let wait: u64 = self.backoff_ms;
        self.phase = OwnerPhase::Waiting;
        self.backoff_ms = if wait * 2 <= MAX_BACKOFF_MS {
            wait * 2
        } else {
            MAX_BACKOFF_MS
        };
        state.connected = false;
        state.last_disconnect_reason = Some(reason.to_owned());
        state.consecutive_open_failures = state.consecutive_open_failures + 1;
        wait
    }

    /// What an event means while no port is open. A change of settings is
    /// remembered for the next open although it is refused for now.
    pub fn wait_step(
        &mut self,
        state: &mut DeviceState,
        config: &mut SerialConfig,
        event: WaitEvent,
    ) -> (step: WaitStep)
        requires
            old(self).wf(*old(state)),
            old(self).phase is Waiting || old(self).phase is Parked,
        ensures
            final(self).wf(*final(state)),
            final(self).backoff_ms == old(self).backoff_ms,
            *final(config) == (match event {
                WaitEvent::Control(ControlMsg::Apply(s)) => old(config).updated(s),
                _ => *old(config),
            }),
            *final(state) == (DeviceState {
                explicitly_disconnected: match event {
                    WaitEvent::Control(ControlMsg::Disconnect) => true,
                    WaitEvent::Control(ControlMsg::Connect) => false,
                    _ => old(state).explicitly_disconnected,
                },
                ..*old(state)
            }),
            final(self).phase == phase_after_wait(old(self).phase, event),
            step is Retry || step is RefuseAndRetry || step is AckAndRetry <==> final(self).phase
                is Opening,
            old(self).phase is Waiting ==> match event {
                WaitEvent::TimerElapsed => step is Retry,
                WaitEvent::ForceReconnect => step is Retry,
                WaitEvent::Control(ControlMsg::Apply(_)) => step matches WaitStep::RefuseAndRetry(f)
                    && f.says(FaultKind::NotConnected, "device disconnected"@),
                WaitEvent::Control(ControlMsg::Disconnect) => step is Ack,
                WaitEvent::Control(ControlMsg::Connect) => step is Ack,
                _ => step matches WaitStep::Refuse(f) && f.says(
                    FaultKind::NotConnected,
                    "device disconnected"@,
                ),
            },
            old(self).phase is Parked ==> match event {
                WaitEvent::TimerElapsed => step is KeepWaiting,
                WaitEvent::ForceReconnect => step is KeepWaiting,
                WaitEvent::Control(ControlMsg::Disconnect) => step is Ack,
                WaitEvent::Control(ControlMsg::Connect) => step is AckAndRetry,
                _ => step matches WaitStep::Refuse(f) && f.says(
                    FaultKind::NotConnected,
                    "device disconnected"@,
                ),
            },
    {
        let parked: bool = self.phase == OwnerPhase::Parked;
        match event {
            WaitEvent::TimerElapsed | WaitEvent::ForceReconnect => {
                if parked {
                    return WaitStep::KeepWaiting;
                }
                self.phase = OwnerPhase::Opening;
                WaitStep::Retry
            },
            WaitEvent::Control(ControlMsg::Apply(s)) => {
                config.apply(&s);
                let fault = IoFault::new(FaultKind::NotConnected, "device disconnected");
                if parked {
                    return WaitStep::Refuse(fault);
                }
                self.phase = OwnerPhase::Opening;
                WaitStep::RefuseAndRetry(fault)
            },
            WaitEvent::Control(ControlMsg::Disconnect) => {
                state.explicitly_disconnected = true;
                self.phase = OwnerPhase::Parked;
                WaitStep::Ack
            },
            WaitEvent::Control(ControlMsg::Connect) => {
                state.explicitly_disconnected = false;
                if parked {
                    self.phase = OwnerPhase::Opening;
                    WaitStep::AckAndRetry
                } else {
                    WaitStep::Ack
                }
            },
            _ => WaitStep::Refuse(IoFault::new(FaultKind::NotConnected, "device disconnected")),
        }
    }

    /// What an event means during an I/O session. Received bytes are pushed to
    /// the ring; a write is answered with the ring's head just before it.
    pub fn io_step(&self, state: &mut DeviceState, ring: &mut RingBuffer, event: IoEvent) -> (step:
        IoStep)
        requires
            self.wf(*old(state)),
            self.phase is Online,
            old(ring).wf(),
            event matches IoEvent::ReadData(data) ==> old(ring).head() + data@.len() <= u64::MAX,
        ensures
            self.wf(*final(state)),
            final(ring).wf(),
            final(ring).limit() == old(ring).limit(),
            final(ring).stream() == (match event {
                IoEvent::ReadData(data) => old(ring).stream() + data@,
                _ => old(ring).stream(),
            }),
            *final(state) == (DeviceState {
                explicitly_disconnected: match event {
                    IoEvent::Control(ControlMsg::Disconnect) => true,
                    IoEvent::Control(ControlMsg::Connect) => false,
                    _ => old(state).explicitly_disconnected,
                },
                ..*old(state)
            }),
            match event {
                IoEvent::ForceReconnect => step matches IoStep::End(r) && r@
                    == "forced reconnect"@,
                IoEvent::ControlClosed => step matches IoStep::End(r) && r@
                    == "control channel closed"@,
                IoEvent::WriterClosed => step matches IoStep::End(r) && r@
                    == "writer channel closed"@,
                IoEvent::Control(ControlMsg::Disconnect) => step matches IoStep::AckAndEnd(r)
                    && r@ == "disconnected on request"@,
                IoEvent::Control(ControlMsg::Connect) => step is Ack,
                IoEvent::Control(ControlMsg::Apply(s)) => match self.phase {
                    OwnerPhase::Online(Backend::Real) => step == IoStep::Apply(s),
                    _ => step matches IoStep::Refuse(f) && f.says(
                        FaultKind::Unsupported,
                        "device does not support runtime serial config changes"@,
                    ),
                },
                IoEvent::Control(msg) => match self.phase {
                    OwnerPhase::Online(Backend::Real) => step == IoStep::Operate(msg),
                    _ => step matches IoStep::Refuse(f) && f.says(
                        FaultKind::Unsupported,
                        "device does not support line control"@,
                    ),
                },
                IoEvent::WriteRequested => step == IoStep::Write(old(ring).head() as u64),
                IoEvent::WriteFinished(ok) => if ok {
                    step is Continue
                } else {
                    step matches IoStep::End(r) && r@ == "write error"@
                },
                IoEvent::ReadEof => step matches IoStep::End(r) && r@ == "EOF"@,
                IoEvent::ReadData(_) => step is Continue,
                IoEvent::ReadError(e) => step matches IoStep::End(r) && r@ == "read error: "@ + e@,
            },
    {
        let termios: bool = self.phase == OwnerPhase::Online(Backend::Real);
        match event {
            IoEvent::ForceReconnect => IoStep::End("forced reconnect".to_owned()),
            IoEvent::ControlClosed => IoStep::End("control channel closed".to_owned()),
            IoEvent::WriterClosed => IoStep::End("writer channel closed".to_owned()),
            IoEvent::Control(ControlMsg::Disconnect) => {
                state.explicitly_disconnected = true;
                IoStep::AckAndEnd("disconnected on request".to_owned())
            },
            IoEvent::Control(ControlMsg::Connect) => {
                state.explicitly_disconnected = false;
                IoStep::Ack
            },
            IoEvent::Control(ControlMsg::Apply(s)) => {
                if termios {
                    IoStep::Apply(s)
                } else {
                    IoStep::Refuse(
                        IoFault::new(
                            FaultKind::Unsupported,
                            "device does not support runtime serial config changes",
                        ),
                    )
                }
            },
            IoEvent::Control(msg) => {
                if termios {
                    IoStep::Operate(msg)
                } else {
                    IoStep::Refuse(
                        IoFault::new(
                            FaultKind::Unsupported,
                            "device does not support line control",
                        ),
                    )
                }
            },
            IoEvent::WriteRequested => {
                let (head, _tail) = ring.snapshot_seqs();
                IoStep::Write(head)
            },
            IoEvent::WriteFinished(ok) => {
                if ok {
                    IoStep::Continue
                } else {
                    IoStep::End("write error".to_owned())
                }
            },
            IoEvent::ReadEof => IoStep::End("EOF".to_owned()),
            IoEvent::ReadData(data) => {
                let _ = ring.push(data.as_slice());
                IoStep::Continue
            },
            IoEvent::ReadError(e) => IoStep::End(cat2("read error: ", e.as_str())),
        }
    }

    /// The live port took the settings, or refused them with `fault`. Only what
    /// it took is stored, so the same settings survive a reconnect.
    pub fn apply_finished(
        config: &mut SerialConfig,
        settings: &SerialSettings,
        fault: Option<IoFault>,
    ) -> (answer: Result<(), IoFault>)
        ensures
            answer == (match fault {
                Some(f) => Err::<(), IoFault>(f),
                None => Ok(()),
            }),
            *final(config) == (if fault is None {
                old(config).updated(*settings)
            } else {
                *old(config)
            }),
    {
        match fault {
            Some(f) => Err(f),
            None => {
                config.apply(settings);
                Ok(())
            },
        }
    }

    /// The I/O session is over. Returns the event to broadcast.
    pub fn session_ended(&mut self, state: &mut DeviceState, reason: &str) -> (event: DeviceEvent)
        requires
            old(self).wf(*old(state)),
            old(self).phase is Online,
            old(state).disconnect_count < u64::MAX,
        ensures
            final(self).wf(*final(state)),
            final(self).backoff_ms == old(self).backoff_ms,
            final(self).phase == (if old(state).explicitly_disconnected {
                OwnerPhase::Parked
            } else {
                OwnerPhase::Gap
            }),
            opt_view(final(state).last_disconnect_reason) == Some(reason@),
            *final(state) == (DeviceState {
                connected: false,
                last_disconnect_reason: final(state).last_disconnect_reason,
                disconnect_count: (old(state).disconnect_count + 1) as u64,
                ..*old(state)
            }),
            event.kind is Disconnected,
            opt_view(event.detail) == Some(reason@),
    {
        state.connected = false;
        state.last_disconnect_reason = Some(reason.to_owned());
        state.disconnect_count = state.disconnect_count + 1;
        self.phase = if state.explicitly_disconnected {
            OwnerPhase::Parked
        } else {
            OwnerPhase::Gap
        };
        DeviceEvent { kind: DeviceEventKind::Disconnected, detail: Some(reason.to_owned()) }
    }

    /// The gap after a session is over.
    pub fn gap_elapsed(&mut self)
        requires
            old(self).phase is Gap,
        ensures
            final(self).phase is Opening,
            final(self).backoff_ms == old(self).backoff_ms,
            forall|s: DeviceState| old(self).wf(s) ==> final(self).wf(s),
    {
        self.phase = OwnerPhase::Opening;
    }
}

/// A port closed on request stays closed whatever happens, until it is asked
/// to connect: no other event leads to a reopen attempt.
pub proof fn law_parked_until_connect(event: WaitEvent)
    ensures
        phase_after_wait(OwnerPhase::Parked, event) is Parked <==> event != WaitEvent::Control(
            ControlMsg::Connect,
        ),
{
}

/// A write is answered with a number that no echo or reply to it can be below:
/// every byte received after the answer was fixed is numbered from it on, and a
/// read there gives all of them that are kept, and nothing else.
pub proof fn law_write_answer_is_race_free(
    step: IoStep,
    before: &RingBuffer,
    after: &RingBuffer,
    later: Seq<u8>,
)
    requires
        before.head() <= u64::MAX,
        step == IoStep::Write(before.head() as u64),
        after.stream() == before.stream() + later,
        after.limit() == before.limit(),
    ensures
        ({
            let seq = step->Write_0 as int;
            &&& forall|k: int|
                0 <= k < later.len() ==> seq + k < after.head() && #[trigger] later[k]
                    == after.stream()[seq + k]
            &&& after.head() == seq + later.len()
            &&& after.tail() <= seq ==> after.readable(seq) == later
            &&& after.tail() > seq ==> after.readable(seq) == later.skip(after.tail() - seq)
        }),
{
    let seq = step->Write_0 as int;
    if after.tail() <= seq {
        assert(after.readable(seq) =~= later);
    } else {
        assert(after.readable(seq) =~= later.skip(after.tail() - seq));
    }
}

// ---------- What the settings mean ----------

/// Words are read in any case; each setting has these names and no others.
pub proof fn law_setting_words(
    w: &str,
    parity: Option<Parity>,
    flow: Option<FlowControl>,
)
    requires
        call_ensures(Parity::parse, (w,), parity),
        call_ensures(FlowControl::parse, (w,), flow),
    ensures
        ({
            let l = lower(w@);
            &&& parity == Some(Parity::Disabled) <==> l == "none"@ || l == "n"@
            &&& parity == Some(Parity::Odd) <==> l == "odd"@ || l == "o"@
            &&& parity == Some(Parity::Even) <==> l == "even"@ || l == "e"@
            &&& flow == Some(FlowControl::Disabled) <==> l == "none"@ || l == "off"@
            &&& flow == Some(FlowControl::Software) <==> l == "software"@ || l == "soft"@ || l
                == "xon"@ || l == "xon/xoff"@
            &&& flow == Some(FlowControl::Hardware) <==> l == "hardware"@ || l == "hard"@ || l
                == "rts/cts"@ || l == "rtscts"@
        }),
{
    reveal_strlit("none");
    reveal_strlit("n");
    reveal_strlit("odd");
    reveal_strlit("o");
    reveal_strlit("even");
    reveal_strlit("e");
    reveal_strlit("off");
    reveal_strlit("software");
    reveal_strlit("soft");
    reveal_strlit("xon");
    reveal_strlit("xon/xoff");
    reveal_strlit("hardware");
    reveal_strlit("hard");
    reveal_strlit("rts/cts");
    reveal_strlit("rtscts");
    assert("none"@[0] == 'n' && "n"@[0] == 'n');
    assert("odd"@[0] == 'o' && "o"@[0] == 'o' && "odd"@[1] == 'd');
    assert("even"@[0] == 'e' && "e"@[0] == 'e');
    assert("off"@[0] == 'o');
    assert("software"@[0] == 's' && "soft"@[0] == 's' && "xon"@[0] == 'x' && "xon/xoff"@[0] == 'x');
    assert("hardware"@[0] == 'h' && "hard"@[0] == 'h' && "rts/cts"@[0] == 'r' && "rtscts"@[0]
        == 'r');
}

/// Data bits are 5 to 8 and stop bits 1 or 2, each its own number; other
/// numbers are none. Shown as a number or a word, a setting is what it was.
pub proof fn law_setting_numbers(
    n: u8,
    data: Option<DataBits>,
    stop: Option<StopBits>,
    shown_data: u8,
    shown_stop: u8,
)
    requires
        call_ensures(DataBits::from_u8, (n,), data),
        call_ensures(StopBits::from_u8, (n,), stop),
        data matches Some(d) ==> call_ensures(DataBits::as_u8, (d,), shown_data),
        stop matches Some(s) ==> call_ensures(StopBits::as_u8, (s,), shown_stop),
    ensures
        data is Some <==> 5 <= n <= 8,
        data == Some(DataBits::Eight) <==> n == 8,
        data == Some(DataBits::Seven) <==> n == 7,
        data == Some(DataBits::Six) <==> n == 6,
        data is Some ==> shown_data == n,
        stop is Some <==> 1 <= n <= 2,
        stop == Some(StopBits::Two) <==> n == 2,
        stop is Some ==> shown_stop == n,
{
}

/// One change made on a port that runs with `cfg`.
pub open spec fn with_change(cfg: SerialConfig, change: SettingChange) -> SerialConfig {
    match change {
        SettingChange::Baud(v) => SerialConfig { baud: v, ..cfg },
        SettingChange::DataBits(v) => SerialConfig { data_bits: v, ..cfg },
        SettingChange::Parity(v) => SerialConfig { parity: v, ..cfg },
        SettingChange::StopBits(v) => SerialConfig { stop_bits: v, ..cfg },
        SettingChange::FlowControl(v) => SerialConfig { flow_control: v, ..cfg },
    }
}

/// Some changes made one after the other.
pub open spec fn with_changes(cfg: SerialConfig, changes: Seq<SettingChange>) -> SerialConfig
    decreases changes.len(),
{
    if changes.len() == 0 {
        cfg
    } else {
        with_change(with_changes(cfg, changes.drop_last()), changes.last())
    }
}

proof fn lemma_with_changes_append(
    cfg: SerialConfig,
    changes: Seq<SettingChange>,
    more: Option<SettingChange>,
)
    ensures
        with_changes(cfg, changes + zero_or_one(more)) == (match more {
            Some(c) => with_change(with_changes(cfg, changes), c),
            None => with_changes(cfg, changes),
        }),
{
    let all = changes + zero_or_one(more);
    if more is Some {
        assert(all.drop_last() =~= changes);
        assert(all.last() == more->Some_0);
    } else {
        assert(all =~= changes);
    }
}

/// Making the changes gives the update.
proof fn lemma_changes_update(base: SerialConfig, s: SerialSettings)
    ensures
        with_changes(base, s.changes()) == base.updated(s),
{
    let none = Seq::<SettingChange>::empty();
    let v1 = zero_or_one(s.baud_change());
    let v2 = v1 + zero_or_one(s.data_bits_change());
    let v3 = v2 + zero_or_one(s.parity_change());
    let v4 = v3 + zero_or_one(s.stop_bits_change());
    assert(none + v1 =~= v1);
    lemma_with_changes_append(base, none, s.baud_change());
    lemma_with_changes_append(base, v1, s.data_bits_change());
    lemma_with_changes_append(base, v2, s.parity_change());
    lemma_with_changes_append(base, v3, s.stop_bits_change());
    lemma_with_changes_append(base, v4, s.flow_control_change());
}

/// What is changed on the live port is what was asked for: a setting is changed
/// if and only if a value was given for it, to that value and once, the baud
/// rate first and the flow control last. Making the changes on a port gives the
/// configuration that is stored, and so the one it is reopened with.
pub proof fn law_live_changes_are_those_asked_for(
    cfg: &mut SerialConfig,
    s: &SerialSettings,
    steps: Vec<SettingChange>,
)
    requires
        call_ensures(SerialSettings::steps, (s,), steps),
        call_ensures(SerialConfig::apply, (cfg, s), ()),
    ensures
        with_changes(*old(cfg), steps@) == *final(cfg),
        forall|v: u32| #[trigger] steps@.contains(SettingChange::Baud(v)) <==> s.baud == Some(v),
        forall|v: DataBits| #[trigger]
            steps@.contains(SettingChange::DataBits(v)) <==> s.data_bits == Some(v),
        forall|v: Parity| #[trigger]
            steps@.contains(SettingChange::Parity(v)) <==> s.parity == Some(v),
        forall|v: StopBits| #[trigger]
            steps@.contains(SettingChange::StopBits(v)) <==> s.stop_bits == Some(v),
        forall|v: FlowControl| #[trigger]
            steps@.contains(SettingChange::FlowControl(v)) <==> s.flow_control == Some(v),
        forall|i: int, j: int| 0 <= i < j < steps@.len() ==> change_rank(steps@[i]) < change_rank(
            steps@[j],
        ),
{
    lemma_changes_update(*old(cfg), *s);
    let none = Seq::<SettingChange>::empty();
    let v1 = zero_or_one(s.baud_change());
    let v2 = v1 + zero_or_one(s.data_bits_change());
    let v3 = v2 + zero_or_one(s.parity_change());
    let v4 = v3 + zero_or_one(s.stop_bits_change());
    let v5 = v4 + zero_or_one(s.flow_control_change());
    assert(none + v1 =~= v1);
    assert(steps@ =~= v5);
    lemma_contains_append(none, s.baud_change());
    lemma_contains_append(v1, s.data_bits_change());
    lemma_contains_append(v2, s.parity_change());
    lemma_contains_append(v3, s.stop_bits_change());
    lemma_contains_append(v4, s.flow_control_change());
    assert forall|c: SettingChange| !#[trigger] none.contains(c) by {}
}

proof fn lemma_contains_append(changes: Seq<SettingChange>, more: Option<SettingChange>)
    ensures
        forall|c: SettingChange| #[trigger]
            (changes + zero_or_one(more)).contains(c) <==> changes.contains(c) || more == Some(c),
{
    let all = changes + zero_or_one(more);
    assert forall|c: SettingChange| #[trigger]
        all.contains(c) <==> changes.contains(c) || more == Some(c) by {
        if all.contains(c) {
            let k = choose|k: int| 0 <= k < all.len() && all[k] == c;
            if k < changes.len() {
                assert(changes[k] == c);
            }
        }
        if changes.contains(c) {
            let k = choose|k: int| 0 <= k < changes.len() && changes[k] == c;
            assert(all[k] == c);
        }
        if more == Some(c) {
            assert(all[changes.len() as int] == c);
        }
    }
}

/// The order in which changes are made.
pub open spec fn change_rank(change: SettingChange) -> int {
    match change {
        SettingChange::Baud(_) => 1,
        SettingChange::DataBits(_) => 2,
        SettingChange::Parity(_) => 3,
        SettingChange::StopBits(_) => 4,
        SettingChange::FlowControl(_) => 5,
    }
}

/// A partial update gives every setting that was named its new value and leaves
/// the others and the path alone.
pub proof fn law_update_touches_what_is_named(cfg: &mut SerialConfig, s: &SerialSettings)
    requires
        call_ensures(SerialConfig::apply, (cfg, s), ()),
    ensures
        final(cfg).path == old(cfg).path,
        s.baud matches Some(v) ==> final(cfg).baud == v,
        s.baud is None ==> final(cfg).baud == old(cfg).baud,
        s.data_bits matches Some(v) ==> final(cfg).data_bits == v,
        s.data_bits is None ==> final(cfg).data_bits == old(cfg).data_bits,
        s.parity matches Some(v) ==> final(cfg).parity == v,
        s.parity is None ==> final(cfg).parity == old(cfg).parity,
        s.stop_bits matches Some(v) ==> final(cfg).stop_bits == v,
        s.stop_bits is None ==> final(cfg).stop_bits == old(cfg).stop_bits,
        s.flow_control matches Some(v) ==> final(cfg).flow_control == v,
        s.flow_control is None ==> final(cfg).flow_control == old(cfg).flow_control,
{
}

/// Settings that the live port took are stored, and those it refused are not;
/// the answer says which.
pub proof fn law_only_accepted_settings_are_kept(
    config: &mut SerialConfig,
    settings: &SerialSettings,
    fault: Option<IoFault>,
    answer: Result<(), IoFault>,
)
    requires
        call_ensures(SerialOwner::apply_finished, (config, settings, fault), answer),
    ensures
        answer is Ok <==> fault is None,
        fault matches Some(f) ==> answer == Err::<(), IoFault>(f) && *final(config) == *old(
            config),
        fault is None ==> with_changes(*old(config), settings.changes()) == *final(config),
{
    if fault is None {
        lemma_changes_update(*old(config), *settings);
    }
}

// ---------- What the owner of a port does ----------

/// The pause doubles after every failed attempt, from half a second up to ten
/// seconds, and starts over once the port was opened. The outage is counted and
/// its reason kept until then.
pub proof fn law_reopening_backs_off(
    owner: &mut SerialOwner,
    state: &mut DeviceState,
    reason: &str,
    wait_ms: u64,
)
    requires
        call_ensures(SerialOwner::open_failed, (owner, state, reason), wait_ms),
    ensures
        wait_ms == old(owner).backoff_ms,
        old(owner).backoff_ms <= 5000 ==> final(owner).backoff_ms == 2 * wait_ms,
        old(owner).backoff_ms > 5000 ==> final(owner).backoff_ms == 10000,
        !final(state).connected,
        opt_view(final(state).last_disconnect_reason) == Some(reason@),
        old(state).consecutive_open_failures < u64::MAX
            ==> final(state).consecutive_open_failures == old(
            state).consecutive_open_failures + 1,
        final(state).disconnect_count == old(state).disconnect_count,
        final(state).last_open_at == old(state).last_open_at,
        final(state).explicitly_disconnected == old(state).explicitly_disconnected,
{
}

/// An opened port counts as connected from now on, with the pause back at half
/// a second and no failures; every client hears of it.
pub proof fn law_opening_starts_over(
    owner: &mut SerialOwner,
    state: &mut DeviceState,
    backend: Backend,
    now_ms: u64,
    event: DeviceEvent,
)
    requires
        call_ensures(SerialOwner::opened, (owner, state, backend, now_ms), event),
    ensures
        final(owner).phase == OwnerPhase::Online(backend),
        final(owner).backoff_ms == 500,
        final(state).connected,
        final(state).last_open_at == Some(now_ms),
        final(state).last_disconnect_reason is None,
        final(state).consecutive_open_failures == 0,
        final(state).disconnect_count == old(state).disconnect_count,
        final(state).explicitly_disconnected == old(state).explicitly_disconnected,
        event.kind == DeviceEventKind::Reconnected && event.detail is None,
{
}

/// A session that ended leaves the port disconnected, counted and explained;
/// it is reopened after a short gap, unless it was closed on request.
pub proof fn law_session_end_is_recorded(
    owner: &mut SerialOwner,
    state: &mut DeviceState,
    reason: &str,
    event: DeviceEvent,
)
    requires
        call_ensures(SerialOwner::session_ended, (owner, state, reason), event),
        old(state).disconnect_count < u64::MAX,
    ensures
        !final(state).connected,
        opt_view(final(state).last_disconnect_reason) == Some(reason@),
        final(state).disconnect_count == old(state).disconnect_count + 1,
        old(state).explicitly_disconnected ==> final(owner).phase == OwnerPhase::Parked,
        !old(state).explicitly_disconnected ==> final(owner).phase == OwnerPhase::Gap,
        final(state).explicitly_disconnected == old(state).explicitly_disconnected,
        final(state).last_open_at == old(state).last_open_at,
        event.kind == DeviceEventKind::Disconnected && opt_view(event.detail) == Some(reason@),
{
}

/// Without a port nothing is written and nothing operated: clients are told
/// that the device is disconnected. New settings are refused likewise, yet kept
/// for the next attempt, which they bring forward. Closing and opening on
/// request work; a port closed on request is opened by nothing else.
pub proof fn law_waiting_for_a_port(
    owner: &mut SerialOwner,
    state: &mut DeviceState,
    config: &mut SerialConfig,
    event: WaitEvent,
    step: WaitStep,
)
    requires
        call_ensures(SerialOwner::wait_step, (owner, state, config, event), step),
        old(owner).phase is Waiting || old(owner).phase is Parked,
    ensures
        event == WaitEvent::WriteRequested ==> (step matches WaitStep::Refuse(f) && f.kind
            == FaultKind::NotConnected) && final(owner).phase == old(owner).phase,
        event matches WaitEvent::Control(ControlMsg::Apply(s)) ==> *final(config)
            == with_changes(*old(config), s.changes()),
        event matches WaitEvent::Control(ControlMsg::Apply(s)) ==> (match step {
            WaitStep::Refuse(f) => old(owner).phase is Parked && f.kind
                == FaultKind::NotConnected,
            WaitStep::RefuseAndRetry(f) => old(owner).phase is Waiting && f.kind
                == FaultKind::NotConnected,
            _ => false,
        }),
        event == WaitEvent::TimerElapsed || event == WaitEvent::ForceReconnect ==> (if old(
            owner).phase is Waiting {
            step is Retry && final(owner).phase is Opening
        } else {
            step is KeepWaiting && final(owner).phase is Parked
        }),
        event == WaitEvent::Control(ControlMsg::Disconnect) ==> step is Ack && final(owner).phase
            is Parked && final(state).explicitly_disconnected,
        event == WaitEvent::Control(ControlMsg::Connect) ==> !final(state).explicitly_disconnected
            && (if old(owner).phase is Parked {
            step is AckAndRetry && final(owner).phase is Opening
        } else {
            step is Ack && final(owner).phase is Waiting
        }),
        event == WaitEvent::Control(ControlMsg::ReadModem) ==> (step matches WaitStep::Refuse(f)
            && f.kind == FaultKind::NotConnected),
        final(state).connected == old(state).connected,
{
    if let WaitEvent::Control(ControlMsg::Apply(s)) = event {
        lemma_changes_update(*old(config), s);
    }
}

/// During a session every byte that is read goes into the ring and nothing else
/// does; a write is answered with the number that the next byte will have; and
/// only a port with terminal settings has its settings and lines operated. The
/// session ends at the end of the data, on a failed read or write, and on
/// request.
pub proof fn law_session_serves_the_port(
    owner: &SerialOwner,
    state: &mut DeviceState,
    ring: &mut RingBuffer,
    event: IoEvent,
    step: IoStep,
)
    requires
        call_ensures(SerialOwner::io_step, (owner, state, ring, event), step),
        owner.phase is Online,
    ensures
        event matches IoEvent::ReadData(data) ==> final(ring).stream() == old(ring).stream()
            + data@ && step is Continue,
        !(event is ReadData) ==> final(ring).stream() == old(ring).stream(),
        final(ring).limit() == old(ring).limit(),
        event is WriteRequested ==> step == IoStep::Write(old(ring).stream().len() as u64),
        event == IoEvent::WriteFinished(true) ==> step is Continue,
        event == IoEvent::WriteFinished(false) ==> step is End,
        event is ReadEof || event is ReadError || event is ForceReconnect ==> step is End,
        event matches IoEvent::Control(ControlMsg::Apply(s)) ==> (if owner.phase
            == OwnerPhase::Online(Backend::Real) {
            step == IoStep::Apply(s)
        } else {
            step matches IoStep::Refuse(f) && f.kind == FaultKind::Unsupported
        }),
        event matches IoEvent::Control(ControlMsg::SendBreak(ms)) ==> (if owner.phase
            == OwnerPhase::Online(Backend::Real) {
            step == IoStep::Operate(ControlMsg::SendBreak(ms))
        } else {
            step matches IoStep::Refuse(f) && f.kind == FaultKind::Unsupported
        }),
        event matches IoEvent::Control(ControlMsg::SetDtr(on)) ==> (if owner.phase
            == OwnerPhase::Online(Backend::Real) {
            step == IoStep::Operate(ControlMsg::SetDtr(on))
        } else {
            step matches IoStep::Refuse(f) && f.kind == FaultKind::Unsupported
        }),
        event matches IoEvent::Control(ControlMsg::SetRts(on)) ==> (if owner.phase
            == OwnerPhase::Online(Backend::Real) {
            step == IoStep::Operate(ControlMsg::SetRts(on))
        } else {
            step matches IoStep::Refuse(f) && f.kind == FaultKind::Unsupported
        }),
        event == IoEvent::Control(ControlMsg::ReadModem) ==> (if owner.phase
            == OwnerPhase::Online(Backend::Real) {
            step == IoStep::Operate(ControlMsg::ReadModem)
        } else {
            step matches IoStep::Refuse(f) && f.kind == FaultKind::Unsupported
        }),
        event == IoEvent::Control(ControlMsg::Disconnect) ==> step is AckAndEnd && final(
            state).explicitly_disconnected,
        event == IoEvent::Control(ControlMsg::Connect) ==> step is Ack && !final(
            state).explicitly_disconnected,
        final(state).connected == old(state).connected,
{
}

} // verus!
