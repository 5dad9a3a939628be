use servo_tuner::commands::Command;
use servo_tuner::error::LinkError;
use servo_tuner::layout::LayoutRect;
use servo_tuner::records::{ControllerPointers, Oscilloscope, ServoConfig};
use servo_tuner::session::{
    base_table_addr, next_phase, IntentAction, InterfaceCommand, Phase, PhaseEvent, Poller,
};

fn pointers() -> ControllerPointers {
    ControllerPointers {
        magic: [0x54, 0xA4, 0x2F, 0x6F, 0x07, 0x8A, 0x48],
        ready: true,
        servo_config_addr: 0x2000_0100,
        servo_state_addr: 0x2000_0200,
        oscilloscope_addr: 0x2000_0300,
        oscilloscope_data_addr: 0x2000_1000,
        command_buffer_addr: 0x2000_0400,
    }
}

fn poller() -> Poller {
    let osc = Oscilloscope { recording: false, index: 950, interval: 1, len: 1000 };
    let (p, armed) = Poller::start(&pointers(), &osc).unwrap();
    assert!(armed.recording);
    assert_eq!(armed.index, 950);
    p
}

#[test]
fn start_arms_recording_and_tracks_index() {
    let p = poller();
    assert_eq!(p.last_index, 950);
    assert!(p.record_samples);
    let mut unsigned = pointers();
    unsigned.magic[3] = 0;
    let osc = Oscilloscope::default();
    assert_eq!(Poller::start(&unsigned, &osc), Err(LinkError::Layout));
}

#[test]
fn parameter_update_writes_one_word_and_is_seen_by_full_read() {
    let mut p = poller();
    let value = 2.5f32.to_bits();
    let action = p.apply_intent(&InterfaceCommand::UpdateConfigParameter(6, value)).unwrap();
    let w = match action {
        IntentAction::Write(w) => w,
        other => panic!("unexpected action {:?}", other),
    };
    assert_eq!(w.addr, 0x2000_0100 + 6 * 4);
    assert_eq!(w.data, 2.5f32.to_le_bytes().to_vec());
    let mut mem = ServoConfig::default().to_bytes();
    let off = (w.addr - 0x2000_0100) as usize;
    mem[off..off + w.data.len()].copy_from_slice(&w.data);
    let cfg = ServoConfig::from_bytes(&mem).unwrap();
    assert_eq!(f32::from_bits(cfg.vel_max_abs), 2.5);
    assert_eq!(cfg.tor_max_abs, 0);
    assert_eq!(
        p.apply_intent(&InterfaceCommand::UpdateConfigParameter(14, value)),
        Err(LinkError::OutOfRange)
    );
}

#[test]
fn intents_map_to_actions() {
    let mut p = poller();
    assert_eq!(p.apply_intent(&InterfaceCommand::StopMotor), Ok(IntentAction::Enqueue(Command::MotorStop)));
    assert_eq!(p.apply_intent(&InterfaceCommand::StartMotor), Ok(IntentAction::Enqueue(Command::MotorStart)));
    assert_eq!(
        p.apply_intent(&InterfaceCommand::PositionCommand(1.0f32.to_bits())),
        Ok(IntentAction::Enqueue(Command::PositionCommand { position: 1.0f32.to_bits() }))
    );
    assert_eq!(
        p.apply_intent(&InterfaceCommand::SendCommand(Command::SaveServoConfig)),
        Ok(IntentAction::Enqueue(Command::SaveServoConfig))
    );
    assert_eq!(p.apply_intent(&InterfaceCommand::ResetController), Ok(IntentAction::ResetTarget));
    assert_eq!(p.apply_intent(&InterfaceCommand::StopRecording), Ok(IntentAction::Nothing));
    assert!(!p.record_samples);
    assert_eq!(p.apply_intent(&InterfaceCommand::StartRecording), Ok(IntentAction::Nothing));
    assert!(p.record_samples);
    let cfg = ServoConfig { inertia: 7, ..ServoConfig::default() };
    match p.apply_intent(&InterfaceCommand::WriteServoConfig(cfg)).unwrap() {
        IntentAction::Write(w) => {
            assert_eq!(w.addr, 0x2000_0100);
            assert_eq!(w.data, cfg.to_bytes());
        }
        other => panic!("unexpected action {:?}", other),
    }
}

#[test]
fn sample_reads_follow_the_ring() {
    let mut p = poller();
    let osc = Oscilloscope { recording: true, index: 20, interval: 1, len: 1000 };
    assert_eq!(p.plan_sample_read(&osc), Ok((0x2000_1000 + 950 * 32, 50 * 32)));
    assert_eq!(p.last_index, 0);
    assert_eq!(p.plan_sample_read(&osc), Ok((0x2000_1000, 20 * 32)));
    assert_eq!(p.last_index, 20);
    let broken = Oscilloscope { recording: true, index: 2000, interval: 1, len: 1000 };
    assert_eq!(p.plan_sample_read(&broken), Err(LinkError::Layout));
    assert_eq!(p.last_index, 20);
}

#[test]
fn base_table_address_is_little_endian() {
    assert_eq!(base_table_addr(&[0x00, 0x01, 0x00, 0x20]), Ok(0x2000_0100));
    assert_eq!(base_table_addr(&[0x00, 0x01]), Err(LinkError::Transport));
}

#[test]
fn lifecycle_phases() {
    let mut p = Phase::Idle;
    for (e, want) in [
        (PhaseEvent::Connected, Phase::Idle),
        (PhaseEvent::StartRequested, Phase::Connecting),
        (PhaseEvent::Connected, Phase::Discovering),
        (PhaseEvent::Discovered, Phase::Running),
        (PhaseEvent::StartRequested, Phase::Running),
        (PhaseEvent::StopRequested, Phase::Disconnecting),
        (PhaseEvent::Disconnected, Phase::Idle),
    ] {
        p = next_phase(p, e);
        assert_eq!(p, want);
    }
    assert_eq!(next_phase(Phase::Discovering, PhaseEvent::LinkFailed), Phase::Disconnecting);
    assert_eq!(next_phase(Phase::Connecting, PhaseEvent::LinkFailed), Phase::Idle);
    assert_eq!(next_phase(Phase::Running, PhaseEvent::LinkFailed), Phase::Disconnecting);
}

#[test]
fn layout_splits() {
    let r = LayoutRect::new(1280, 720);
    let (side, view) = r.vertical_split_left_abs(400);
    assert_eq!(side, LayoutRect { x: 0, y: 0, w: 400, h: 720 });
    assert_eq!(view, LayoutRect { x: 400, y: 0, w: 880, h: 720 });
    let (top, tools) = view.horizontal_split_bottom_abs(400);
    assert_eq!(top, LayoutRect { x: 400, y: 0, w: 880, h: 320 });
    assert_eq!(tools, LayoutRect { x: 400, y: 320, w: 880, h: 400 });
    let (devices, config) = side.horizontal_split_top_abs(100);
    assert_eq!(devices.h, 100);
    assert_eq!((config.y, config.h), (100, 620));
    let (l, rr) = r.vertical_split_right_abs(300);
    assert_eq!((l.w, rr.x, rr.w), (980, 980, 300));
}

#[test]
fn one_session_at_a_time() {
    assert!(servo_tuner::session::may_connect(&[]));
    assert!(servo_tuner::session::may_connect(&[false, false]));
    assert!(!servo_tuner::session::may_connect(&[false, true, false]));
}
