use servo_tuner::commands::{Command, CommandBufferInfo};
use servo_tuner::records::{
    ControllerData, ControllerPointers, Oscilloscope, OscilloscopeSamplePoint, ServoConfig,
    ServoControlState, ServoState, OFFSET_VEL_MAX_ABS,
};
use servo_tuner::wire::{decode_words, encode_words};

fn sample_config() -> ServoConfig {
    ServoConfig {
        position_gain: 1.5f32.to_bits(),
        velocity_gain: 2.0f32.to_bits(),
        velocity_integrator_gain: 0.25f32.to_bits(),
        velocity_integrator_max_abs: 10.0f32.to_bits(),
        index_scan_speed: 0.5f32.to_bits(),
        turns_per_step: 0.001f32.to_bits(),
        vel_max_abs: 20.0f32.to_bits(),
        tor_max_abs: 3.0f32.to_bits(),
        max_pos_step: 0.1f32.to_bits(),
        input_filt_kp: 100.0f32.to_bits(),
        input_filt_ki: 200.0f32.to_bits(),
        inertia: 0.002f32.to_bits(),
        torque_bandwidth: 1000.0f32.to_bits(),
        vel_pllki: 5.0f32.to_bits(),
    }
}

#[test]
fn words_encode_little_endian() {
    let b = encode_words(&[0x1234_5678, 0xdead_beef]);
    assert_eq!(b, vec![0x78, 0x56, 0x34, 0x12, 0xef, 0xbe, 0xad, 0xde]);
    assert_eq!(decode_words(&b), Some(vec![0x1234_5678, 0xdead_beef]));
    assert_eq!(decode_words(&b[..5]), None);
    assert_eq!(decode_words(&[]), Some(vec![]));
}

#[test]
fn servo_config_round_trip_is_byte_identical() {
    let cfg = sample_config();
    let bytes = cfg.to_bytes();
    assert_eq!(bytes.len(), 56);
    assert_eq!(&bytes[0..4], &1.5f32.to_le_bytes());
    assert_eq!(&bytes[24..28], &20.0f32.to_le_bytes());
    let back = ServoConfig::from_bytes(&bytes).unwrap();
    assert_eq!(back, cfg);
    assert_eq!(back.to_bytes(), bytes);
    assert_eq!(ServoConfig::from_bytes(&bytes[..52]), None);
}

#[test]
fn servo_config_default_is_zero() {
    let cfg = ServoConfig::default();
    assert_eq!(cfg.to_bytes(), vec![0u8; 56]);
    assert_eq!(OFFSET_VEL_MAX_ABS, 6);
}

#[test]
fn oscilloscope_layout_has_padding_after_flag() {
    let osc = Oscilloscope { recording: true, index: 950, interval: 2, len: 1000 };
    let b = osc.to_bytes();
    assert_eq!(b.len(), 16);
    assert_eq!(&b[0..4], &[1, 0, 0, 0]);
    assert_eq!(&b[4..8], &950u32.to_le_bytes());
    assert_eq!(&b[12..16], &1000u32.to_le_bytes());
    assert_eq!(Oscilloscope::from_bytes(&b), Some(osc));
    let mut bad = b.clone();
    bad[0] = 2;
    assert_eq!(Oscilloscope::from_bytes(&bad), None);
    assert_eq!(Oscilloscope::from_bytes(&b[..12]), None);
}

#[test]
fn controller_pointers_decode() {
    let mut b = vec![0x54, 0xA4, 0x2F, 0x6F, 0x07, 0x8A, 0x48, 1];
    for a in [0x2000_0100u32, 0x2000_0200, 0x2000_0300, 0x2000_0400, 0x2000_0500] {
        b.extend_from_slice(&a.to_le_bytes());
    }
    let p = ControllerPointers::from_bytes(&b).unwrap();
    assert!(p.ready);
    assert!(p.has_signature());
    assert_eq!(p.servo_config_addr, 0x2000_0100);
    assert_eq!(p.command_buffer_addr, 0x2000_0500);
    let mut unsigned = b.clone();
    unsigned[0] = 0;
    assert!(!ControllerPointers::from_bytes(&unsigned).unwrap().has_signature());
    let mut bad_flag = b.clone();
    bad_flag[7] = 7;
    assert_eq!(ControllerPointers::from_bytes(&bad_flag), None);
}

#[test]
fn servo_state_round_trip() {
    let st = ServoState {
        state: ServoControlState::EnabledPiv,
        pos_input: 1.0f32.to_bits(),
        vel_input: 2.0f32.to_bits(),
        tor_input: 3.0f32.to_bits(),
        pos_setpoint: 4.0f32.to_bits(),
        vel_setpoint: 5.0f32.to_bits(),
        tor_setpoint: 6.0f32.to_bits(),
        accel: 7.0f32.to_bits(),
        velocity: 8.0f32.to_bits(),
        position: 9.0f32.to_bits(),
        raw_position: 10.0f32.to_bits(),
        max_vel_abs_obs: 11.0f32.to_bits(),
        encoder_offset: -42,
        step_dir_offset: 17,
        anticogging_sampless: 0x1234,
        anticogging_index: 0xabcd,
        anticogging_sum: 12.0f32.to_bits(),
        aligned: true,
        anticogging_calibrated: false,
        anticogging_returning: true,
    };
    let b = st.to_bytes();
    assert_eq!(b.len(), 68);
    assert_eq!(&b[0..4], &7u32.to_le_bytes());
    assert_eq!(&b[48..52], &(-42i32).to_le_bytes());
    assert_eq!(&b[56..60], &[0x34, 0x12, 0xcd, 0xab]);
    assert_eq!(&b[64..68], &[1, 0, 1, 0]);
    assert_eq!(ServoState::from_bytes(&b), Some(st));
    let mut bad_mode = b.clone();
    bad_mode[0] = 10;
    assert_eq!(ServoState::from_bytes(&bad_mode), None);
}

#[test]
fn control_state_codes() {
    assert_eq!(ServoControlState::from_code(0), Some(ServoControlState::Uninit));
    assert_eq!(ServoControlState::from_code(9), Some(ServoControlState::EnabledTorque));
    assert_eq!(ServoControlState::from_code(10), None);
    assert_eq!(ServoControlState::EnabledPid.code(), 6);
    assert_eq!(ServoControlState::default(), ServoControlState::Uninit);
}

#[test]
fn sample_points_decode_in_order() {
    let a = OscilloscopeSamplePoint { pos: 1, vel: 2, acc: 3, pos_setpoint: 4, vel_setpoint: 5, tor_setpoint: 6, pos_input: 7, vel_input: 8 };
    let b = OscilloscopeSamplePoint { pos: 9, vel: 10, acc: 11, pos_setpoint: 12, vel_setpoint: 13, tor_setpoint: 14, pos_input: 15, vel_input: 16 };
    let mut bytes = a.to_bytes();
    bytes.extend(b.to_bytes());
    assert_eq!(bytes.len(), 64);
    assert_eq!(OscilloscopeSamplePoint::array_from_bytes(&bytes), Some(vec![a, b]));
    assert_eq!(OscilloscopeSamplePoint::array_from_bytes(&bytes[..40]), None);
    assert_eq!(OscilloscopeSamplePoint::array_from_bytes(&[]), Some(vec![]));
}

#[test]
fn command_layout_is_tag_then_payload() {
    assert_eq!(Command::MotorStop.to_bytes(), vec![0, 0, 0, 0, 0, 0, 0, 0]);
    assert_eq!(
        Command::PositionCommand { position: 1.0f32.to_bits() }.to_bytes(),
        [7u32.to_le_bytes(), 1.0f32.to_le_bytes()].concat()
    );
    assert_eq!(Command::SetMotionProfile { profile: 3 }.to_bytes(), vec![14, 0, 0, 0, 3, 0, 0, 0]);
}

#[test]
fn command_buffer_info_decode() {
    let mut b = Vec::new();
    for w in [1u32, 5, 8, 0x2000_1000] {
        b.extend_from_slice(&w.to_le_bytes());
    }
    let info = CommandBufferInfo::from_bytes(&b).unwrap();
    assert_eq!(info, CommandBufferInfo { front: 1, back: 5, capacity: 8, data_addr: 0x2000_1000 });
    assert_eq!(CommandBufferInfo::from_bytes(&b[..8]), None);
}

#[test]
fn controller_data_default() {
    let d = ControllerData::default();
    assert_eq!(d.servo_state.state, ServoControlState::Uninit);
    assert!(!d.oscilloscope.recording);
    assert_eq!(d.servo_config, ServoConfig::default());
}
