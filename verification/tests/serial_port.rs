use serial_tether::buffer::RingBuffer;
use serial_tether::serial::{
    Backend, ControlMsg, DataBits, FaultKind, FlowControl, IoEvent, IoFault, IoStep, OwnerPhase,
    Parity, SerialConfig, SerialOwner, SerialSettings, SettingChange, StopBits, WaitEvent,
    WaitStep, INITIAL_BACKOFF_MS, MAX_BACKOFF_MS,
};
use serial_tether::state::{DeviceEventKind, DeviceState};

fn config() -> SerialConfig {
    SerialConfig {
        path: "/dev/ttyUSB0".to_string(),
        baud: 115200,
        data_bits: DataBits::Eight,
        parity: Parity::Disabled,
        stop_bits: StopBits::One,
        flow_control: FlowControl::Disabled,
    }
}

fn nothing() -> SerialSettings {
    SerialSettings {
        baud: None,
        data_bits: None,
        parity: None,
        stop_bits: None,
        flow_control: None,
    }
}

fn online(backend: Backend) -> (SerialOwner, DeviceState) {
    let mut owner = SerialOwner::new();
    let mut state = DeviceState::new_disconnected();
    owner.opened(&mut state, backend, 7);
    (owner, state)
}

#[test]
fn settings_have_names_and_numbers() {
    assert_eq!(DataBits::from_u8(5), Some(DataBits::Five));
    assert_eq!(DataBits::from_u8(6), Some(DataBits::Six));
    assert_eq!(DataBits::from_u8(7), Some(DataBits::Seven));
    assert_eq!(DataBits::from_u8(8), Some(DataBits::Eight));
    assert_eq!(DataBits::from_u8(9), None);
    assert_eq!(DataBits::Seven.as_u8(), 7);
    assert_eq!(DataBits::Seven.as_str(), "7");
    assert_eq!(StopBits::from_u8(2), Some(StopBits::Two));
    assert_eq!(StopBits::from_u8(0), None);
    assert_eq!(StopBits::One.as_u8(), 1);
    assert_eq!(StopBits::Two.as_str(), "2");
    assert_eq!(Parity::parse("NONE"), Some(Parity::Disabled));
    assert_eq!(Parity::parse("o"), Some(Parity::Odd));
    assert_eq!(Parity::parse("Even"), Some(Parity::Even));
    assert_eq!(Parity::parse("mark"), None);
    assert_eq!(Parity::Even.as_str(), "even");
    assert_eq!(FlowControl::parse("XON/XOFF"), Some(FlowControl::Software));
    assert_eq!(FlowControl::parse("rtscts"), Some(FlowControl::Hardware));
    assert_eq!(FlowControl::parse("off"), Some(FlowControl::Disabled));
    assert_eq!(FlowControl::parse(""), None);
    assert_eq!(FlowControl::Hardware.as_str(), "hardware");
}

#[test]
fn partial_update_keeps_the_rest() {
    let mut c = config();
    c.apply(&SerialSettings { baud: Some(9600), parity: Some(Parity::Odd), ..nothing() });
    assert_eq!(c.baud, 9600);
    assert_eq!(c.parity, Parity::Odd);
    assert_eq!(c.data_bits, DataBits::Eight);
    assert_eq!(c.path, "/dev/ttyUSB0");
    assert_eq!(c.duplicate().baud, 9600);
}

#[test]
fn of_two_updates_the_later_wins() {
    let mut c = config();
    c.apply(&SerialSettings { baud: Some(9600), parity: Some(Parity::Odd), ..nothing() });
    c.apply(&SerialSettings { baud: Some(300), data_bits: Some(DataBits::Seven), ..nothing() });
    assert_eq!((c.baud, c.parity, c.data_bits), (300, Parity::Odd, DataBits::Seven));
    assert_eq!((c.path.as_str(), c.stop_bits), ("/dev/ttyUSB0", StopBits::One));
}

#[test]
fn live_changes_come_in_order() {
    let s = SerialSettings {
        baud: Some(9600),
        flow_control: Some(FlowControl::Hardware),
        stop_bits: Some(StopBits::Two),
        ..nothing()
    };
    assert_eq!(
        s.steps(),
        vec![
            SettingChange::Baud(9600),
            SettingChange::StopBits(StopBits::Two),
            SettingChange::FlowControl(FlowControl::Hardware),
        ]
    );
    assert!(!s.is_empty());
    assert!(nothing().is_empty());
    assert!(nothing().steps().is_empty());
}

#[test]
fn opening_reports_a_reconnect() {
    let mut owner = SerialOwner::new();
    let mut state = DeviceState::new_disconnected();
    let wait = owner.open_failed(&mut state, "No such file or directory");
    assert_eq!(wait, INITIAL_BACKOFF_MS);
    assert_eq!(state.last_disconnect_reason.as_deref(), Some("No such file or directory"));
    assert_eq!(state.consecutive_open_failures, 1);
    let mut cfg = config();
    assert!(matches!(
        owner.wait_step(&mut state, &mut cfg, WaitEvent::TimerElapsed),
        WaitStep::Retry
    ));
    let event = owner.opened(&mut state, Backend::Real, 42);
    assert_eq!(event.kind, DeviceEventKind::Reconnected);
    assert!(event.detail.is_none());
    assert!(state.connected);
    assert_eq!(state.last_open_at, Some(42));
    assert_eq!(state.last_disconnect_reason, None);
    assert_eq!(state.consecutive_open_failures, 0);
}

#[test]
fn backoff_doubles_up_to_the_limit_and_resets() {
    let mut owner = SerialOwner::new();
    let mut state = DeviceState::new_disconnected();
    let mut cfg = config();
    let mut waits = Vec::new();
    for _ in 0..7 {
        waits.push(owner.open_failed(&mut state, "gone"));
        owner.wait_step(&mut state, &mut cfg, WaitEvent::TimerElapsed);
    }
    assert_eq!(waits, vec![500, 1000, 2000, 4000, 8000, 10000, 10000]);
    assert_eq!(owner.backoff_ms, MAX_BACKOFF_MS);
    owner.opened(&mut state, Backend::Fd, 1);
    assert_eq!(owner.backoff_ms, INITIAL_BACKOFF_MS);
}

#[test]
fn waiting_refuses_work_but_remembers_settings() {
    let mut owner = SerialOwner::new();
    let mut state = DeviceState::new_disconnected();
    let mut cfg = config();
    owner.open_failed(&mut state, "gone");
    match owner.wait_step(&mut state, &mut cfg, WaitEvent::WriteRequested) {
        WaitStep::Refuse(f) => {
            assert_eq!(f.kind, FaultKind::NotConnected);
            assert_eq!(f.message, "device disconnected");
        }
        other => panic!("unexpected {other:?}"),
    }
    let s = SerialSettings { baud: Some(9600), ..nothing() };
    match owner.wait_step(&mut state, &mut cfg, WaitEvent::Control(ControlMsg::Apply(s))) {
        WaitStep::RefuseAndRetry(f) => assert_eq!(f.kind, FaultKind::NotConnected),
        other => panic!("unexpected {other:?}"),
    }
    assert_eq!(cfg.baud, 9600);
    assert_eq!(owner.phase, OwnerPhase::Opening);
}

#[test]
fn parked_port_waits_for_connect() {
    let (mut owner, mut state) = online(Backend::Real);
    let mut ring = RingBuffer::new(16);
    let mut cfg = config();
    let step = owner.io_step(&mut state, &mut ring, IoEvent::Control(ControlMsg::Disconnect));
    let reason = match step {
        IoStep::AckAndEnd(r) => r,
        other => panic!("unexpected {other:?}"),
    };
    let event = owner.session_ended(&mut state, &reason);
    assert_eq!(event.kind, DeviceEventKind::Disconnected);
    assert_eq!(owner.phase, OwnerPhase::Parked);
    assert!(state.explicitly_disconnected && !state.connected);
    for e in [WaitEvent::TimerElapsed, WaitEvent::ForceReconnect] {
        assert!(matches!(owner.wait_step(&mut state, &mut cfg, e), WaitStep::KeepWaiting));
    }
    assert!(matches!(
        owner.wait_step(&mut state, &mut cfg, WaitEvent::Control(ControlMsg::Connect)),
        WaitStep::AckAndRetry
    ));
    assert!(!state.explicitly_disconnected);
    assert_eq!(owner.phase, OwnerPhase::Opening);
}

#[test]
fn session_events() {
    let (owner, mut state) = online(Backend::Real);
    let mut ring = RingBuffer::new(16);
    let end = |s: IoStep| match s {
        IoStep::End(r) => r,
        other => panic!("unexpected {other:?}"),
    };
    assert!(matches!(
        owner.io_step(&mut state, &mut ring, IoEvent::ReadData(b"abc".to_vec())),
        IoStep::Continue
    ));
    assert!(matches!(
        owner.io_step(&mut state, &mut ring, IoEvent::WriteRequested),
        IoStep::Write(3)
    ));
    assert!(matches!(
        owner.io_step(&mut state, &mut ring, IoEvent::WriteFinished(true)),
        IoStep::Continue
    ));
    assert_eq!(
        end(owner.io_step(&mut state, &mut ring, IoEvent::WriteFinished(false))),
        "write error"
    );
    assert_eq!(end(owner.io_step(&mut state, &mut ring, IoEvent::ReadEof)), "EOF");
    assert_eq!(
        end(owner.io_step(&mut state, &mut ring, IoEvent::ReadError("boom".to_string()))),
        "read error: boom"
    );
    assert_eq!(
        end(owner.io_step(&mut state, &mut ring, IoEvent::ForceReconnect)),
        "forced reconnect"
    );
    assert_eq!(
        end(owner.io_step(&mut state, &mut ring, IoEvent::ControlClosed)),
        "control channel closed"
    );
    assert_eq!(
        end(owner.io_step(&mut state, &mut ring, IoEvent::WriterClosed)),
        "writer channel closed"
    );
    assert!(matches!(
        owner.io_step(&mut state, &mut ring, IoEvent::Control(ControlMsg::SetDtr(true))),
        IoStep::Operate(ControlMsg::SetDtr(true))
    ));
}

#[test]
fn tio_control_on_pty_returns_unsupported() {
    let (owner, mut state) = online(Backend::Fd);
    let mut ring = RingBuffer::new(16);
    for msg in [
        ControlMsg::SendBreak(250),
        ControlMsg::SetDtr(true),
        ControlMsg::SetRts(false),
        ControlMsg::ReadModem,
        ControlMsg::Apply(nothing()),
    ] {
        match owner.io_step(&mut state, &mut ring, IoEvent::Control(msg)) {
            IoStep::Refuse(f) => assert_eq!(f.kind, FaultKind::Unsupported),
            other => panic!("unexpected {other:?}"),
        }
    }
}

#[test]
fn only_accepted_settings_are_stored() {
    let mut cfg = config();
    let s = SerialSettings { baud: Some(9600), ..nothing() };
    let refused = IoFault::new(FaultKind::Other, "nope");
    assert!(SerialOwner::apply_finished(&mut cfg, &s, Some(refused)).is_err());
    assert_eq!(cfg.baud, 115200);
    assert!(SerialOwner::apply_finished(&mut cfg, &s, None).is_ok());
    assert_eq!(cfg.baud, 9600);
}

#[test]
fn lost_session_is_counted_and_reopened_after_a_gap() {
    let (mut owner, mut state) = online(Backend::Real);
    let event = owner.session_ended(&mut state, "EOF");
    assert_eq!(event.kind, DeviceEventKind::Disconnected);
    assert_eq!(event.detail.as_deref(), Some("EOF"));
    assert_eq!(state.disconnect_count, 1);
    assert_eq!(owner.phase, OwnerPhase::Gap);
    owner.gap_elapsed();
    assert_eq!(owner.phase, OwnerPhase::Opening);
}
