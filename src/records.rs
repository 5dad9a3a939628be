//! The firmware's fixed-layout records, as this host reads and writes them.
//!
//! Every float of the firmware is held here as the bit pattern of an IEEE-754
//! single (`f32::to_bits`); the host only moves such values, it never computes
//! with them. Each record's byte layout is the firmware's `repr(C)` layout on a
//! little-endian target, padding included.
use vstd::prelude::*;
use crate::wire::{
    decode_words, encode_words, flag_byte, from_flag_byte, le_words, lemma_le_words_of_words,
    lemma_words_le_len, lemma_words_of_le_words, pack_halves, pack_u16_pair, read_words,
    to_flag_byte, unpack_u16_pair, words_le,
};

verus! {

/// Word index of each tuning parameter within `ServoConfig`.
pub const OFFSET_POSITION_GAIN: u32 = 0;
pub const OFFSET_VELOCITY_GAIN: u32 = 1;
pub const OFFSET_VELOCITY_INTEGRATOR_GAIN: u32 = 2;
pub const OFFSET_VELOCITY_INTEGRATOR_MAX_ABS: u32 = 3;
pub const OFFSET_INDEX_SCAN_SPEED: u32 = 4;
pub const OFFSET_TURNS_PER_STEP: u32 = 5;
pub const OFFSET_VEL_MAX_ABS: u32 = 6;
pub const OFFSET_TOR_MAX_ABS: u32 = 7;
pub const OFFSET_MAX_POS_STEP: u32 = 8;
pub const OFFSET_INPUT_FILT_KP: u32 = 9;
pub const OFFSET_INPUT_FILT_KI: u32 = 10;
pub const OFFSET_INERTIA: u32 = 11;
pub const OFFSET_TORQUE_BANDWIDTH: u32 = 12;
pub const OFFSET_VEL_PLLKI: u32 = 13;

/// Number of tuning parameters in `ServoConfig`.
pub const SERVO_CONFIG_WORDS: u32 = 14;

/// Size in bytes of `ServoConfig` in target memory.
pub const SERVO_CONFIG_SIZE: u32 = 56;

/// The servo's tuning parameters, each an `f32` bit pattern.
#[derive(Clone, Copy, Debug, PartialEq, Eq)]
pub struct ServoConfig {
    pub position_gain: u32,
    pub velocity_gain: u32,
    pub velocity_integrator_gain: u32,
    pub velocity_integrator_max_abs: u32,
    pub index_scan_speed: u32,
    pub turns_per_step: u32,
    pub vel_max_abs: u32,
    pub tor_max_abs: u32,
    pub max_pos_step: u32,
    pub input_filt_kp: u32,
    pub input_filt_ki: u32,
    pub inertia: u32,
    pub torque_bandwidth: u32,
    pub vel_pllki: u32,
}

impl ServoConfig {
    /// The parameters in layout order.
    pub open spec fn words(self) -> Seq<u32> {
        seq![
            self.position_gain,
            self.velocity_gain,
            self.velocity_integrator_gain,
            self.velocity_integrator_max_abs,
            self.index_scan_speed,
            self.turns_per_step,
            self.vel_max_abs,
            self.tor_max_abs,
            self.max_pos_step,
            self.input_filt_kp,
            self.input_filt_ki,
            self.inertia,
            self.torque_bandwidth,
            self.vel_pllki,
        ]
    }

    /// The record whose parameters, in layout order, are `w`.
    pub open spec fn from_words(w: Seq<u32>) -> ServoConfig {
        ServoConfig {
            position_gain: w[0],
            velocity_gain: w[1],
            velocity_integrator_gain: w[2],
            velocity_integrator_max_abs: w[3],
            index_scan_speed: w[4],
            turns_per_step: w[5],
            vel_max_abs: w[6],
            tor_max_abs: w[7],
            max_pos_step: w[8],
            input_filt_kp: w[9],
            input_filt_ki: w[10],
            inertia: w[11],
            torque_bandwidth: w[12],
            vel_pllki: w[13],
        }
    }

    /// The record's bytes in target memory.
    pub open spec fn bytes(self) -> Seq<u8> {
        words_le(self.words())
    }

    pub fn to_bytes(&self) -> (r: Vec<u8>)
        ensures
            r@ == self.bytes(),
            r@.len() == SERVO_CONFIG_SIZE,
    {
        let w: Vec<u32> = vec![
            self.position_gain,
            self.velocity_gain,
            self.velocity_integrator_gain,
            self.velocity_integrator_max_abs,
            self.index_scan_speed,
            self.turns_per_step,
            self.vel_max_abs,
            self.tor_max_abs,
            self.max_pos_step,
            self.input_filt_kp,
            self.input_filt_ki,
            self.inertia,
            self.torque_bandwidth,
            self.vel_pllki,
        ];
        assert(w@ =~= self.words());
        proof {
            lemma_words_le_len(self.words());
        }
        encode_words(w.as_slice())
    }

    /// Reads the record from its bytes; `None` unless there are exactly
    /// `SERVO_CONFIG_SIZE` of them.
    pub fn from_bytes(b: &[u8]) -> (r: Option<ServoConfig>)
        ensures
            r.is_some() <==> b@.len() == SERVO_CONFIG_SIZE,
            r.is_some() ==> r.unwrap() == ServoConfig::from_words(le_words(b@)),
    {
        if b.len() != 56 {
            return None;
        }
        let w = decode_words(b).unwrap();
        Some(
            ServoConfig {
                position_gain: w[0],
                velocity_gain: w[1],
                velocity_integrator_gain: w[2],
                velocity_integrator_max_abs: w[3],
                index_scan_speed: w[4],
                turns_per_step: w[5],
                vel_max_abs: w[6],
                tor_max_abs: w[7],
                max_pos_step: w[8],
                input_filt_kp: w[9],
                input_filt_ki: w[10],
                inertia: w[11],
                torque_bandwidth: w[12],
                vel_pllki: w[13],
            },
        )
    }

    /// Decoding a record's own bytes gives the record back.
    pub proof fn lemma_round_trip(self)
        ensures
            self.bytes().len() == SERVO_CONFIG_SIZE,
            ServoConfig::from_words(le_words(self.bytes())) == self,
    {
        lemma_words_le_len(self.words());
        lemma_le_words_of_words(self.words());
    }
}

impl Default for ServoConfig {
    fn default() -> (r: ServoConfig)
        ensures
            r.words() == Seq::new(14, |i: int| 0u32),
    {
        let r = ServoConfig {
            position_gain: 0,
            velocity_gain: 0,
            velocity_integrator_gain: 0,
            velocity_integrator_max_abs: 0,
            index_scan_speed: 0,
            turns_per_step: 0,
            vel_max_abs: 0,
            tor_max_abs: 0,
            max_pos_step: 0,
            input_filt_kp: 0,
            input_filt_ki: 0,
            inertia: 0,
            torque_bandwidth: 0,
            vel_pllki: 0,
        };
        assert(r.words() =~= Seq::new(14, |i: int| 0u32));
        r
    }
}

/// Size in bytes of `OscilloscopeSamplePoint` in target memory.
pub const SAMPLE_POINT_SIZE: u32 = 32;

/// One telemetry sample of the oscilloscope, each field an `f32` bit pattern.
#[derive(Clone, Copy, Debug, PartialEq, Eq)]
pub struct OscilloscopeSamplePoint {
    pub pos: u32,
    pub vel: u32,
    pub acc: u32,
    pub pos_setpoint: u32,
    pub vel_setpoint: u32,
    pub tor_setpoint: u32,
    pub pos_input: u32,
    pub vel_input: u32,
}

impl OscilloscopeSamplePoint {
    pub open spec fn words(self) -> Seq<u32> {
        seq![
            self.pos,
            self.vel,
            self.acc,
            self.pos_setpoint,
            self.vel_setpoint,
            self.tor_setpoint,
            self.pos_input,
            self.vel_input,
        ]
    }

    pub open spec fn from_words(w: Seq<u32>) -> OscilloscopeSamplePoint {
        OscilloscopeSamplePoint {
            pos: w[0],
            vel: w[1],
            acc: w[2],
            pos_setpoint: w[3],
            vel_setpoint: w[4],
            tor_setpoint: w[5],
            pos_input: w[6],
            vel_input: w[7],
        }
    }

    pub open spec fn bytes(self) -> Seq<u8> {
        words_le(self.words())
    }

    /// The sample stored in `b[32 * i .. 32 * i + 32]`.
    pub open spec fn at_index(b: Seq<u8>, i: int) -> OscilloscopeSamplePoint {
        OscilloscopeSamplePoint::from_words(le_words(b.subrange(32 * i, 32 * i + 32)))
    }

    pub fn to_bytes(&self) -> (r: Vec<u8>)
        ensures
            r@ == self.bytes(),
            r@.len() == SAMPLE_POINT_SIZE,
    {
        let w: Vec<u32> = vec![
            self.pos,
            self.vel,
            self.acc,
            self.pos_setpoint,
            self.vel_setpoint,
            self.tor_setpoint,
            self.pos_input,
            self.vel_input,
        ];
        assert(w@ =~= self.words());
        proof {
            lemma_words_le_len(self.words());
        }
        encode_words(w.as_slice())
    }

    /// Reads a run of consecutive samples; `None` unless the length of `b` is
    /// a whole number of samples.
    pub fn array_from_bytes(b: &[u8]) -> (r: Option<Vec<OscilloscopeSamplePoint>>)
        ensures
            r.is_some() <==> b@.len() % 32 == 0,
            r.is_some() ==> r.unwrap()@ == Seq::new(
                b@.len() / 32,
                |i: int| OscilloscopeSamplePoint::at_index(b@, i),
            ),
    {
        if b.len() % 32 != 0 {
            return None;
        }
        let n = b.len() / 32;
        let mut out: Vec<OscilloscopeSamplePoint> = Vec::new();
        let mut i: usize = 0;
        while i < n
            invariant
                n == b@.len() / 32,
                b@.len() % 32 == 0,
                b@.len() == b.len(),
                i <= n,
                out@ == Seq::new(i as nat, |k: int| OscilloscopeSamplePoint::at_index(b@, k)),
            decreases n - i,
        {
            assert(32 * i + 32 <= b@.len()) by (nonlinear_arith)
                requires
                    i < n,
                    n == b@.len() / 32,
            ;
            let w = read_words(b, 32 * i, 8);
            out.push(
                OscilloscopeSamplePoint {
                    pos: w[0],
                    vel: w[1],
                    acc: w[2],
                    pos_setpoint: w[3],
                    vel_setpoint: w[4],
                    tor_setpoint: w[5],
                    pos_input: w[6],
                    vel_input: w[7],
                },
            );
            assert(out@ =~= Seq::new(
                (i + 1) as nat,
                |k: int| OscilloscopeSamplePoint::at_index(b@, k),
            ));
            i = i + 1;
        }
        Some(out)
    }
}

/// Size in bytes of `Oscilloscope` in target memory.
pub const OSCILLOSCOPE_SIZE: u32 = 16;

/// Header of the firmware's sample ring: whether it records, the slot it
/// writes next, its sampling interval, and its capacity in samples.
#[derive(Clone, Copy, Debug, PartialEq, Eq)]
pub struct Oscilloscope {
    pub recording: bool,
    pub index: u32,
    pub interval: u32,
    pub len: u32,
}

impl Oscilloscope {
    /// A flag byte, three bytes of padding, then three words.
    pub open spec fn bytes(self) -> Seq<u8> {
        seq![flag_byte(self.recording), 0u8, 0u8, 0u8] + words_le(
            seq![self.index, self.interval, self.len],
        )
    }

    /// The header stored in `b`, whose flag byte is 0 or 1.
    pub open spec fn from_layout(b: Seq<u8>) -> Oscilloscope {
        let w = le_words(b.subrange(4, 16));
        Oscilloscope { recording: b[0] == 1, index: w[0], interval: w[1], len: w[2] }
    }

    pub fn to_bytes(&self) -> (r: Vec<u8>)
        ensures
            r@ == self.bytes(),
            r@.len() == OSCILLOSCOPE_SIZE,
    {
        let mut out: Vec<u8> = vec![to_flag_byte(self.recording), 0, 0, 0];
        let w: Vec<u32> = vec![self.index, self.interval, self.len];
        let mut tail = encode_words(w.as_slice());
        proof {
            lemma_words_le_len(w@);
        }
        out.append(&mut tail);
        assert(w@ =~= seq![self.index, self.interval, self.len]);
        out
    }

    /// Reads the header from its bytes; `None` unless there are exactly
    /// `OSCILLOSCOPE_SIZE` of them and the flag byte is 0 or 1.
    pub fn from_bytes(b: &[u8]) -> (r: Option<Oscilloscope>)
        ensures
            r.is_some() <==> (b@.len() == OSCILLOSCOPE_SIZE && b@[0] <= 1),
            r.is_some() ==> r.unwrap() == Oscilloscope::from_layout(b@),
    {
        if b.len() != 16 {
            return None;
        }
        match from_flag_byte(b[0]) {
            None => None,
            Some(recording) => {
                let w = read_words(b, 4, 3);
                Some(Oscilloscope { recording, index: w[0], interval: w[1], len: w[2] })
            },
        }
    }
}

impl Default for Oscilloscope {
    fn default() -> (r: Oscilloscope)
        ensures
            r == (Oscilloscope { recording: false, index: 0, interval: 0, len: 0 }),
    {
        Oscilloscope { recording: false, index: 0, interval: 0, len: 0 }
    }
}

/// Size in bytes of `ControllerPointers` in target memory.
pub const CONTROLLER_POINTERS_SIZE: u32 = 28;

/// The signature that opens the firmware's base pointer table.
pub open spec fn table_signature() -> Seq<u8> {
    seq![0x54u8, 0xA4u8, 0x2Fu8, 0x6Fu8, 0x07u8, 0x8Au8, 0x48u8]
}

/// The firmware's base pointer table: where each other record lives.
#[derive(Clone, Copy, Debug, PartialEq, Eq)]
pub struct ControllerPointers {
    pub magic: [u8; 7],
    pub ready: bool,
    pub servo_config_addr: u32,
    pub servo_state_addr: u32,
    pub oscilloscope_addr: u32,
    pub oscilloscope_data_addr: u32,
    pub command_buffer_addr: u32,
}

impl ControllerPointers {
    pub open spec fn addrs(self) -> Seq<u32> {
        seq![
            self.servo_config_addr,
            self.servo_state_addr,
            self.oscilloscope_addr,
            self.oscilloscope_data_addr,
            self.command_buffer_addr,
        ]
    }

    /// Seven signature bytes, the ready flag, then five addresses.
    pub open spec fn bytes(self) -> Seq<u8> {
        self.magic@ + seq![flag_byte(self.ready)] + words_le(self.addrs())
    }

    /// The table stored in `b`, whose ready byte is 0 or 1.
    pub open spec fn from_layout(b: Seq<u8>) -> ControllerPointers {
        let w = le_words(b.subrange(8, 28));
        ControllerPointers {
            magic: [b[0], b[1], b[2], b[3], b[4], b[5], b[6]],
            ready: b[7] == 1,
            servo_config_addr: w[0],
            servo_state_addr: w[1],
            oscilloscope_addr: w[2],
            oscilloscope_data_addr: w[3],
            command_buffer_addr: w[4],
        }
    }

    /// Reads the table from its bytes; `None` unless there are exactly
    /// `CONTROLLER_POINTERS_SIZE` of them and the ready byte is 0 or 1.
    pub fn from_bytes(b: &[u8]) -> (r: Option<ControllerPointers>)
        ensures
            r.is_some() <==> (b@.len() == CONTROLLER_POINTERS_SIZE && b@[7] <= 1),
            r.is_some() ==> r.unwrap() == ControllerPointers::from_layout(b@),
    {
        if b.len() != 28 {
            return None;
        }
        match from_flag_byte(b[7]) {
            None => None,
            Some(ready) => {
                let w = read_words(b, 8, 5);
                Some(
                    ControllerPointers {
                        magic: [b[0], b[1], b[2], b[3], b[4], b[5], b[6]],
                        ready,
                        servo_config_addr: w[0],
                        servo_state_addr: w[1],
                        oscilloscope_addr: w[2],
                        oscilloscope_data_addr: w[3],
                        command_buffer_addr: w[4],
                    },
                )
            },
        }
    }

    /// Whether the table opens with the firmware's signature.
    pub fn has_signature(&self) -> (r: bool)
        ensures
            r == (self.magic@ == table_signature()),
    {
        let m = self.magic;
        let r = m[0] == 0x54 && m[1] == 0xA4 && m[2] == 0x2F && m[3] == 0x6F && m[4] == 0x07
            && m[5] == 0x8A && m[6] == 0x48;
        if r {
            assert(m@ =~= table_signature());
        } else {
            assert(m@ != table_signature()) by {
                if m@ == table_signature() {
                    assert(m@[0] == table_signature()[0]);
                    assert(m@[6] == table_signature()[6]);
                }
            }
        }
        r
    }
}

/// Size in bytes of `ServoState` in target memory.
pub const SERVO_STATE_SIZE: u32 = 68;

/// The servo's control mode.
#[derive(Clone, Copy, Debug, PartialEq, Eq)]
pub enum ServoControlState {
    Uninit,
    Disabled,
    Aligning,
    AnticoggingCalibration,
    EnabledStepDirection,
    EnabledPositionFilter,
    EnabledPid,
    EnabledPiv,
    EnabledVelocity,
    EnabledTorque,
}

impl ServoControlState {
    /// The mode's value in target memory, its place in declaration order.
    pub open spec fn spec_code(self) -> u32 {
        match self {
            ServoControlState::Uninit => 0,
            ServoControlState::Disabled => 1,
            ServoControlState::Aligning => 2,
            ServoControlState::AnticoggingCalibration => 3,
            ServoControlState::EnabledStepDirection => 4,
            ServoControlState::EnabledPositionFilter => 5,
            ServoControlState::EnabledPid => 6,
            ServoControlState::EnabledPiv => 7,
            ServoControlState::EnabledVelocity => 8,
            ServoControlState::EnabledTorque => 9,
        }
    }

    pub fn code(&self) -> (r: u32)
        ensures
            r == self.spec_code(),
    {
        match self {
            ServoControlState::Uninit => 0,
            ServoControlState::Disabled => 1,
            ServoControlState::Aligning => 2,
            ServoControlState::AnticoggingCalibration => 3,
            ServoControlState::EnabledStepDirection => 4,
            ServoControlState::EnabledPositionFilter => 5,
            ServoControlState::EnabledPid => 6,
            ServoControlState::EnabledPiv => 7,
            ServoControlState::EnabledVelocity => 8,
            ServoControlState::EnabledTorque => 9,
        }
    }

    /// The mode whose value is `c`; `None` for a value that names no mode.
    pub fn from_code(c: u32) -> (r: Option<ServoControlState>)
        ensures
            r.is_some() <==> c <= 9,
            r.is_some() ==> r.unwrap().spec_code() == c,
    {
        match c {
            0 => Some(ServoControlState::Uninit),
            1 => Some(ServoControlState::Disabled),
            2 => Some(ServoControlState::Aligning),
            3 => Some(ServoControlState::AnticoggingCalibration),
            4 => Some(ServoControlState::EnabledStepDirection),
            5 => Some(ServoControlState::EnabledPositionFilter),
            6 => Some(ServoControlState::EnabledPid),
            7 => Some(ServoControlState::EnabledPiv),
            8 => Some(ServoControlState::EnabledVelocity),
            9 => Some(ServoControlState::EnabledTorque),
            _ => None,
        }
    }
}

impl Default for ServoControlState {
    fn default() -> (r: ServoControlState)
        ensures
            r == ServoControlState::Uninit,
    {
        ServoControlState::Uninit
    }
}

/// The servo's live state as the firmware publishes it; floats are `f32`
/// bit patterns.
#[derive(Clone, Copy, Debug, PartialEq, Eq)]
pub struct ServoState {
    pub state: ServoControlState,
    pub pos_input: u32,
    pub vel_input: u32,
    pub tor_input: u32,
    pub pos_setpoint: u32,
    pub vel_setpoint: u32,
    pub tor_setpoint: u32,
    pub accel: u32,
    pub velocity: u32,
    pub position: u32,
    pub raw_position: u32,
    pub max_vel_abs_obs: u32,
    pub encoder_offset: i32,
    pub step_dir_offset: i32,
    pub anticogging_sampless: u16,
    pub anticogging_index: u16,
    pub anticogging_sum: u32,
    pub aligned: bool,
    pub anticogging_calibrated: bool,
    pub anticogging_returning: bool,
}

impl ServoState {
    /// The first sixteen words of the record.
    pub open spec fn words(self) -> Seq<u32> {
        seq![
            self.state.spec_code(),
            self.pos_input,
            self.vel_input,
            self.tor_input,
            self.pos_setpoint,
            self.vel_setpoint,
            self.tor_setpoint,
            self.accel,
            self.velocity,
            self.position,
            self.raw_position,
            self.max_vel_abs_obs,
            self.encoder_offset as u32,
            self.step_dir_offset as u32,
            pack_halves(self.anticogging_sampless, self.anticogging_index),
            self.anticogging_sum,
        ]
    }

    /// Sixteen words, three flag bytes, one byte of padding.
    pub open spec fn bytes(self) -> Seq<u8> {
        words_le(self.words()) + seq![
            flag_byte(self.aligned),
            flag_byte(self.anticogging_calibrated),
            flag_byte(self.anticogging_returning),
            0u8,
        ]
    }

    /// Whether `b` holds a state record: the right length, a known mode and
    /// flag bytes that are 0 or 1.
    pub open spec fn valid_layout(b: Seq<u8>) -> bool {
        &&& b.len() == SERVO_STATE_SIZE
        &&& le_words(b.subrange(0, 64))[0] <= 9
        &&& b[64] <= 1
        &&& b[65] <= 1
        &&& b[66] <= 1
    }

    pub fn to_bytes(&self) -> (r: Vec<u8>)
        ensures
            r@ == self.bytes(),
            r@.len() == SERVO_STATE_SIZE,
    {
        let w: Vec<u32> = vec![
            self.state.code(),
            self.pos_input,
            self.vel_input,
            self.tor_input,
            self.pos_setpoint,
            self.vel_setpoint,
            self.tor_setpoint,
            self.accel,
            self.velocity,
            self.position,
            self.raw_position,
            self.max_vel_abs_obs,
            self.encoder_offset as u32,
            self.step_dir_offset as u32,
            pack_u16_pair(self.anticogging_sampless, self.anticogging_index),
            self.anticogging_sum,
        ];
        assert(w@ =~= self.words());
        proof {
            lemma_words_le_len(self.words());
        }
        let mut out = encode_words(w.as_slice());
        out.push(to_flag_byte(self.aligned));
        out.push(to_flag_byte(self.anticogging_calibrated));
        out.push(to_flag_byte(self.anticogging_returning));
        out.push(0);
        assert(out@ =~= self.bytes());
        out
    }

    /// Reads the record from its bytes; `None` unless they hold a state
    /// record. The result stores those bytes back, padding aside.
    pub fn from_bytes(b: &[u8]) -> (r: Option<ServoState>)
        ensures
            r.is_some() <==> ServoState::valid_layout(b@),
            r.is_some() ==> r.unwrap().bytes().subrange(0, 67) == b@.subrange(0, 67),
    {
        if b.len() != 68 {
            return None;
        }
        let w = read_words(b, 0, 16);
        let state = match ServoControlState::from_code(w[0]) {
            None => {
                return None;
            },
            Some(s) => s,
        };
        let aligned = match from_flag_byte(b[64]) {
            None => {
                return None;
            },
            Some(f) => f,
        };
        let anticogging_calibrated = match from_flag_byte(b[65]) {
            None => {
                return None;
            },
            Some(f) => f,
        };
        let anticogging_returning = match from_flag_byte(b[66]) {
            None => {
                return None;
            },
            Some(f) => f,
        };
        let (anticogging_sampless, anticogging_index) = unpack_u16_pair(w[14]);
        let (w12, w13) = (w[12], w[13]);
        let encoder_offset = w12 as i32;
        let step_dir_offset = w13 as i32;
        assert(encoder_offset as u32 == w12 && step_dir_offset as u32 == w13) by (bit_vector)
            requires
                encoder_offset == w12 as i32,
                step_dir_offset == w13 as i32,
        ;
        let r = ServoState {
            state,
            pos_input: w[1],
            vel_input: w[2],
            tor_input: w[3],
            pos_setpoint: w[4],
            vel_setpoint: w[5],
            tor_setpoint: w[6],
            accel: w[7],
            velocity: w[8],
            position: w[9],
            raw_position: w[10],
            max_vel_abs_obs: w[11],
            encoder_offset,
            step_dir_offset,
            anticogging_sampless,
            anticogging_index,
            anticogging_sum: w[15],
            aligned,
            anticogging_calibrated,
            anticogging_returning,
        };
        assert(r.words() =~= le_words(b@.subrange(0, 64)));
        proof {
            lemma_words_of_le_words(b@.subrange(0, 64));
            lemma_words_le_len(r.words());
        }
        assert(r.bytes().subrange(0, 67) =~= b@.subrange(0, 67));
        Some(r)
    }
}

impl Default for ServoState {
    fn default() -> (r: ServoState)
        ensures
            r.state == ServoControlState::Uninit,
            r.words() == Seq::new(16, |i: int| 0u32),
            !r.aligned && !r.anticogging_calibrated && !r.anticogging_returning,
    {
        let r = ServoState {
            state: ServoControlState::Uninit,
            pos_input: 0,
            vel_input: 0,
            tor_input: 0,
            pos_setpoint: 0,
            vel_setpoint: 0,
            tor_setpoint: 0,
            accel: 0,
            velocity: 0,
            position: 0,
            raw_position: 0,
            max_vel_abs_obs: 0,
            encoder_offset: 0,
            step_dir_offset: 0,
            anticogging_sampless: 0,
            anticogging_index: 0,
            anticogging_sum: 0,
            aligned: false,
            anticogging_calibrated: false,
            anticogging_returning: false,
        };
        assert(pack_halves(0, 0) == 0) by (bit_vector);
        assert(r.words() =~= Seq::new(16, |i: int| 0u32));
        r
    }
}

/// Addresses of the firmware's inner controllers.
#[derive(Clone, Copy, Debug, PartialEq, Eq)]
pub struct ServoPointers {
    pub pos_pid_addr: u32,
    pub pos_piv_addr: u32,
    pub vel_piv_addr: u32,
    pub spd_tor_addr: u32,
    pub enc_addr: u32,
}

impl Default for ServoPointers {
    fn default() -> (r: ServoPointers)
        ensures
            r == (ServoPointers {
                pos_pid_addr: 0,
                pos_piv_addr: 0,
                vel_piv_addr: 0,
                spd_tor_addr: 0,
                enc_addr: 0,
            }),
    {
        ServoPointers { pos_pid_addr: 0, pos_piv_addr: 0, vel_piv_addr: 0, spd_tor_addr: 0, enc_addr: 0 }
    }
}

/// A servo's configuration, inner controller addresses and state together.
#[derive(Clone, Copy, Debug, PartialEq, Eq)]
pub struct ServoData {
    pub config: ServoConfig,
    pub pointers: ServoPointers,
    pub state: ServoState,
}

/// Gains, limits and running terms of one of the firmware's PID
/// controllers, each an `f32` bit pattern.
#[derive(Clone, Copy, Debug, PartialEq, Eq)]
pub struct PIDController {
    pub default_kp_gain: u32,
    pub default_ki_gain: u32,
    pub default_kd_gain: u32,
    pub kp_gain: u32,
    pub ki_gain: u32,
    pub kd_gain: u32,
    pub integral_upper_limit: u32,
    pub integral_lower_limit: u32,
    pub integrator_decay: u32,
    pub output_upper_limit: u32,
    pub output_lower_limit: u32,
    pub intergral_term: u32,
    pub previous_error: u32,
}

/// The host's mirrors of the servo's configuration, its state and the
/// oscilloscope header.
#[derive(Clone, Copy, Debug, PartialEq, Eq)]
pub struct ControllerData {
    pub servo_config: ServoConfig,
    pub servo_state: ServoState,
    pub oscilloscope: Oscilloscope,
}

impl Default for ControllerData {
    fn default() -> (r: ControllerData)
        ensures
            r.servo_config.words() == Seq::new(14, |i: int| 0u32),
            r.servo_state.words() == Seq::new(16, |i: int| 0u32),
            !r.servo_state.aligned,
            !r.servo_state.anticogging_calibrated,
            !r.servo_state.anticogging_returning,
            r.oscilloscope == (Oscilloscope { recording: false, index: 0, interval: 0, len: 0 }),
    {
        ControllerData {
            servo_config: ServoConfig::default(),
            servo_state: ServoState::default(),
            oscilloscope: Oscilloscope::default(),
        }
    }
}

} // verus!
