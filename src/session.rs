//! Decisions of the session poller. The poller owns the link; at each step
//! it asks this module what to do, does it over the probe, and hands back
//! what it read.
use vstd::prelude::*;
use crate::commands::Command;
use crate::error::LinkError;
use crate::marshal::{
    apply_writes, check_transfer, chunk_count, element_range, joined, lemma_chunked_read,
    lemma_chunked_write, piece_of, plan_of, read_mem, transfer_error, transfer_ok, write_mem,
    writes_of, Memory, WriteChunk,
};
use crate::records::{
    table_signature, ControllerPointers, Oscilloscope, ServoConfig, SAMPLE_POINT_SIZE,
    SERVO_CONFIG_SIZE, SERVO_CONFIG_WORDS,
};
use crate::scope::{drain_region, indices_ok, region_of};
use crate::wire::{le_bytes, le_value, le_words, lemma_le_value_of_bytes, push_le, read_le};

verus! {

/// Fixed address in target memory that holds the address of the base
/// pointer table.
pub const CONFIG_ADDR_ADDR: u32 = 0x2000_0000;

/// Where a session stands in its lifecycle.
#[derive(Clone, Copy, Debug, PartialEq, Eq, Structural)]
pub enum Phase {
    Idle,
    Connecting,
    Discovering,
    Running,
    Disconnecting,
}

/// What happened to a session.
#[derive(Clone, Copy, Debug, PartialEq, Eq, Structural)]
pub enum PhaseEvent {
    /// The user asked to connect.
    StartRequested,
    /// The probe's interface was claimed and SWD entered.
    Connected,
    /// The base pointers were read and recording armed.
    Discovered,
    /// The cancellation flag was seen clear at the top of an iteration.
    StopRequested,
    /// A transfer failed where failure ends the session.
    LinkFailed,
    /// The probe's interface was released.
    Disconnected,
}

/// The lifecycle: Idle, Connecting, Discovering, Running, Disconnecting,
/// Idle. A failure before the link is up goes straight back to Idle; a
/// stop or a failure once it is up goes through Disconnecting, so that the
/// probe is always released. Any other event leaves the phase as it is.
pub open spec fn phase_after(p: Phase, e: PhaseEvent) -> Phase {
    match (p, e) {
        (Phase::Idle, PhaseEvent::StartRequested) => Phase::Connecting,
        (Phase::Connecting, PhaseEvent::Connected) => Phase::Discovering,
        (Phase::Connecting, PhaseEvent::LinkFailed) => Phase::Idle,
        (Phase::Connecting, PhaseEvent::StopRequested) => Phase::Idle,
        (Phase::Discovering, PhaseEvent::Discovered) => Phase::Running,
        (Phase::Discovering, PhaseEvent::LinkFailed) => Phase::Disconnecting,
        (Phase::Discovering, PhaseEvent::StopRequested) => Phase::Disconnecting,
        (Phase::Running, PhaseEvent::LinkFailed) => Phase::Disconnecting,
        (Phase::Running, PhaseEvent::StopRequested) => Phase::Disconnecting,
        (Phase::Disconnecting, PhaseEvent::Disconnected) => Phase::Idle,
        _ => p,
    }
}

pub fn next_phase(p: Phase, e: PhaseEvent) -> (r: Phase)
    ensures
        r == phase_after(p, e),
        r == Phase::Running ==> p == Phase::Running || (p == Phase::Discovering && e
            == PhaseEvent::Discovered),
{
    match (p, e) {
        (Phase::Idle, PhaseEvent::StartRequested) => Phase::Connecting,
        (Phase::Connecting, PhaseEvent::Connected) => Phase::Discovering,
        (Phase::Connecting, PhaseEvent::LinkFailed) => Phase::Idle,
        (Phase::Connecting, PhaseEvent::StopRequested) => Phase::Idle,
        (Phase::Discovering, PhaseEvent::Discovered) => Phase::Running,
        (Phase::Discovering, PhaseEvent::LinkFailed) => Phase::Disconnecting,
        (Phase::Discovering, PhaseEvent::StopRequested) => Phase::Disconnecting,
        (Phase::Running, PhaseEvent::LinkFailed) => Phase::Disconnecting,
        (Phase::Running, PhaseEvent::StopRequested) => Phase::Disconnecting,
        (Phase::Disconnecting, PhaseEvent::Disconnected) => Phase::Idle,
        _ => p,
    }
}

/// Whether a new session may connect, given which probes already have a
/// session connected: only when none has, so that one poller at a time
/// holds a link.
pub fn may_connect(connected: &[bool]) -> (r: bool)
    ensures
        r <==> forall|i: int| 0 <= i < connected@.len() ==> !#[trigger] connected@[i],
{
    let mut i: usize = 0;
    while i < connected.len()
        invariant
            i <= connected@.len(),
            forall|k: int| 0 <= k < i ==> !#[trigger] connected@[k],
        decreases connected@.len() - i,
    {
        if connected[i] {
            return false;
        }
        i = i + 1;
    }
    true
}

/// What the user interface asks of the session. Float payloads are `f32`
/// bit patterns.
#[derive(Clone, Copy, Debug, PartialEq, Eq)]
pub enum InterfaceCommand {
    WriteServoConfig(ServoConfig),
    StartRecording,
    StopRecording,
    StopMotor,
    StartMotor,
    PositionCommand(u32),
    /// Word index of a parameter of `ServoConfig`, and its new value.
    UpdateConfigParameter(u32, u32),
    SendCommand(Command),
    ResetController,
}

/// What the poller must do on the link for one intent.
#[derive(Debug, PartialEq, Eq)]
pub enum IntentAction {
    /// Nothing on the link.
    Nothing,
    /// Store `data` in target memory at `addr`.
    Write(WriteChunk),
    /// Hand `Command` to the firmware through the command ring.
    Enqueue(Command),
    /// Reset the target system.
    ResetTarget,
}

/// An `IntentAction` as contracts see it.
pub enum ActionView {
    Nothing,
    Write(u32, Seq<u8>),
    Enqueue(Command),
    ResetTarget,
}

impl View for IntentAction {
    type V = ActionView;

    open spec fn view(&self) -> ActionView {
        match self {
            IntentAction::Nothing => ActionView::Nothing,
            IntentAction::Write(w) => ActionView::Write(w.addr, w.data@),
            IntentAction::Enqueue(c) => ActionView::Enqueue(*c),
            IntentAction::ResetTarget => ActionView::ResetTarget,
        }
    }
}

/// The address of the base pointer table, from the four bytes read at
/// `CONFIG_ADDR_ADDR`; `Transport` unless there are four of them.
pub fn base_table_addr(b: &[u8]) -> (r: Result<u32, LinkError>)
    ensures
        r is Ok <==> b@.len() == 4,
        r is Ok ==> r.unwrap() == le_value(b@),
        r is Err ==> r == Err::<u32, LinkError>(LinkError::Transport),
{
    if b.len() != 4 {
        return Err(LinkError::Transport);
    }
    let w = read_le(b, 0);
    assert(b@.subrange(0, 4) =~= b@);
    Ok(w)
}

/// The session's state once the base pointers are known.
#[derive(Clone, Copy, Debug, PartialEq, Eq)]
pub struct Poller {
    pub base: ControllerPointers,
    /// The ring slot the next drain starts at.
    pub last_index: u32,
    /// Whether samples are drained at each poll.
    pub record_samples: bool,
}

impl Poller {
    /// Starts a session from the base pointer table and the oscilloscope
    /// header read through it. Returns the poller and the header to write
    /// back, which arms recording. `Layout` when the table does not open
    /// with the firmware's signature.
    pub fn start(base: &ControllerPointers, osc: &Oscilloscope) -> (r: Result<
        (Poller, Oscilloscope),
        LinkError,
    >)
        ensures
            r is Ok <==> base.magic@ == table_signature(),
            r is Err ==> r == Err::<(Poller, Oscilloscope), LinkError>(LinkError::Layout),
            r is Ok ==> r.unwrap().0 == (Poller {
                base: *base,
                last_index: osc.index,
                record_samples: true,
            }) && r.unwrap().1 == (Oscilloscope { recording: true, ..*osc }),
    {
        if !base.has_signature() {
            return Err(LinkError::Layout);
        }
        let armed = Oscilloscope { recording: true, ..*osc };
        Ok((Poller { base: *base, last_index: osc.index, record_samples: true }, armed))
    }

    /// The action for one intent. Recording intents only switch
    /// `record_samples`. `OutOfRange` for a parameter index past the end of
    /// `ServoConfig`; a write that is misaligned or runs past the address
    /// space is refused as `check_transfer` refuses it.
    pub fn apply_intent(&mut self, cmd: &InterfaceCommand) -> (r: Result<IntentAction, LinkError>)
        ensures
            final(self).base == old(self).base,
            final(self).last_index == old(self).last_index,
            final(self).record_samples == match cmd {
                InterfaceCommand::StartRecording => true,
                InterfaceCommand::StopRecording => false,
                _ => old(self).record_samples,
            },
            match intent_result(old(self).base, *cmd) {
                Ok(v) => r is Ok && r.unwrap()@ == v,
                Err(e) => r == Err::<IntentAction, LinkError>(e),
            },
    {
        match cmd {
            InterfaceCommand::WriteServoConfig(cfg) => {
                let addr = self.base.servo_config_addr;
                match check_transfer(addr, SERVO_CONFIG_SIZE) {
                    Err(e) => Err(e),
                    Ok(()) => Ok(IntentAction::Write(WriteChunk { addr, data: cfg.to_bytes() })),
                }
            },
            InterfaceCommand::StartRecording => {
                self.record_samples = true;
                Ok(IntentAction::Nothing)
            },
            InterfaceCommand::StopRecording => {
                self.record_samples = false;
                Ok(IntentAction::Nothing)
            },
            InterfaceCommand::StopMotor => Ok(IntentAction::Enqueue(Command::MotorStop)),
            InterfaceCommand::StartMotor => Ok(IntentAction::Enqueue(Command::MotorStart)),
            InterfaceCommand::PositionCommand(position) => Ok(
                IntentAction::Enqueue(Command::PositionCommand { position: *position }),
            ),
            InterfaceCommand::UpdateConfigParameter(offset, value) => {
                if *offset >= SERVO_CONFIG_WORDS {
                    return Err(LinkError::OutOfRange);
                }
                let base_addr = self.base.servo_config_addr;
                match check_transfer(base_addr, SERVO_CONFIG_SIZE) {
                    Err(e) => Err(e),
                    Ok(()) => {
                        let mut data: Vec<u8> = Vec::new();
                        push_le(&mut data, *value);
                        assert(data@ =~= le_bytes(*value));
                        Ok(IntentAction::Write(WriteChunk { addr: base_addr + 4 * offset, data }))
                    },
                }
            },
            InterfaceCommand::SendCommand(c) => Ok(IntentAction::Enqueue(*c)),
            InterfaceCommand::ResetController => Ok(IntentAction::ResetTarget),
        }
    }

    /// The memory to read for this poll's samples, as address and length,
    /// given the oscilloscope header just read; the tracked index moves on
    /// to where the next poll starts. `Layout`, with nothing changed, when
    /// an index lies outside the ring; `OutOfRange` when the region does
    /// not fit in the address space.
    pub fn plan_sample_read(&mut self, osc: &Oscilloscope) -> (r: Result<(u32, u32), LinkError>)
        ensures
            final(self).base == old(self).base,
            final(self).record_samples == old(self).record_samples,
            !indices_ok(old(self).last_index, osc.index, osc.len) ==> r == Err::<
                (u32, u32),
                LinkError,
            >(LinkError::Layout) && *final(self) == *old(self),
            indices_ok(old(self).last_index, osc.index, osc.len) ==> ({
                let g = region_of(old(self).last_index, osc.index, osc.len);
                let start = old(self).base.oscilloscope_data_addr + g.start * SAMPLE_POINT_SIZE;
                let len = g.count * SAMPLE_POINT_SIZE;
                &&& final(self).last_index == g.next_last
                &&& (r is Ok <==> start <= u32::MAX && len <= u32::MAX)
                &&& r is Ok ==> r.unwrap() == (start as u32, len as u32)
                &&& r is Err ==> r == Err::<(u32, u32), LinkError>(LinkError::OutOfRange)
            }),
    {
        match drain_region(self.last_index, osc.index, osc.len) {
            None => Err(LinkError::Layout),
            Some(g) => {
                self.last_index = g.next_last;
                element_range(self.base.oscilloscope_data_addr, g.start, g.count, SAMPLE_POINT_SIZE)
            },
        }
    }
}

/// The outcome of `apply_intent` for `cmd` on a session with table `base`.
pub open spec fn intent_result(base: ControllerPointers, cmd: InterfaceCommand) -> Result<
    ActionView,
    LinkError,
> {
    let a = base.servo_config_addr;
    match cmd {
        InterfaceCommand::WriteServoConfig(cfg) => if transfer_ok(a, SERVO_CONFIG_SIZE) {
            Ok(ActionView::Write(a, cfg.bytes()))
        } else {
            Err(transfer_error(a, SERVO_CONFIG_SIZE))
        },
        InterfaceCommand::StartRecording => Ok(ActionView::Nothing),
        InterfaceCommand::StopRecording => Ok(ActionView::Nothing),
        InterfaceCommand::StopMotor => Ok(ActionView::Enqueue(Command::MotorStop)),
        InterfaceCommand::StartMotor => Ok(ActionView::Enqueue(Command::MotorStart)),
        InterfaceCommand::PositionCommand(p) => Ok(
            ActionView::Enqueue(Command::PositionCommand { position: p }),
        ),
        InterfaceCommand::UpdateConfigParameter(offset, value) => if offset >= SERVO_CONFIG_WORDS {
            Err(LinkError::OutOfRange)
        } else if transfer_ok(a, SERVO_CONFIG_SIZE) {
            Ok(ActionView::Write((a + 4 * offset) as u32, le_bytes(value)))
        } else {
            Err(transfer_error(a, SERVO_CONFIG_SIZE))
        },
        InterfaceCommand::SendCommand(c) => Ok(ActionView::Enqueue(c)),
        InterfaceCommand::ResetController => Ok(ActionView::ResetTarget),
    }
}

/// A single-parameter update writes exactly the four bytes of the value at
/// the parameter's place in `ServoConfig`, and a full read of the record
/// afterwards finds the value at that index and every other parameter as
/// it was.
pub proof fn lemma_parameter_update(m: Memory, base: ControllerPointers, offset: u32, value: u32)
    requires
        offset < SERVO_CONFIG_WORDS,
        transfer_ok(base.servo_config_addr, SERVO_CONFIG_SIZE),
    ensures
        intent_result(base, InterfaceCommand::UpdateConfigParameter(offset, value)) == Ok::<
            ActionView,
            LinkError,
        >(ActionView::Write((base.servo_config_addr + 4 * offset) as u32, le_bytes(value))),
        ({
            let a = base.servo_config_addr as int;
            let after = write_mem(m, a + 4 * offset, le_bytes(value));
            let seen = ServoConfig::from_words(le_words(read_mem(after, a, SERVO_CONFIG_SIZE as int)));
            let was = ServoConfig::from_words(le_words(read_mem(m, a, SERVO_CONFIG_SIZE as int)));
            &&& seen.words()[offset as int] == value
            &&& forall|j: int|
                0 <= j < SERVO_CONFIG_WORDS && j != offset ==> #[trigger] seen.words()[j]
                    == was.words()[j]
        }),
{
    let a = base.servo_config_addr as int;
    let after = write_mem(m, a + 4 * offset, le_bytes(value));
    let s_after = read_mem(after, a, SERVO_CONFIG_SIZE as int);
    let s_before = read_mem(m, a, SERVO_CONFIG_SIZE as int);
    let w_after = le_words(s_after);
    let w_before = le_words(s_before);
    assert(ServoConfig::from_words(w_after).words() =~= w_after);
    assert(ServoConfig::from_words(w_before).words() =~= w_before);
    assert(s_after.subrange(4 * offset, 4 * offset + 4) =~= le_bytes(value));
    lemma_le_value_of_bytes(value);
    assert forall|j: int| 0 <= j < SERVO_CONFIG_WORDS && j != offset implies w_after[j]
        == w_before[j] by {
        assert(s_after.subrange(4 * j, 4 * j + 4) =~= s_before.subrange(4 * j, 4 * j + 4));
    }
}

/// Writing a configuration in chunks and reading it back in chunks, with no
/// other writer in between, gives back the same bytes, and so the same
/// configuration.
pub proof fn lemma_config_round_trip(
    m: Memory,
    addr: u32,
    cfg: ServoConfig,
    ws: Seq<WriteChunk>,
    parts: Seq<Seq<u8>>,
)
    requires
        transfer_ok(addr, SERVO_CONFIG_SIZE),
        ws.len() == chunk_count(SERVO_CONFIG_SIZE as int),
        forall|i: int|
            0 <= i < ws.len() ==> (#[trigger] ws[i]).addr == plan_of(addr, SERVO_CONFIG_SIZE)[i].addr
                && ws[i].data@ == piece_of(cfg.bytes(), i),
        parts.len() == plan_of(addr, SERVO_CONFIG_SIZE).len(),
        forall|i: int|
            0 <= i < parts.len() ==> #[trigger] parts[i] == read_mem(
                apply_writes(m, writes_of(ws)),
                plan_of(addr, SERVO_CONFIG_SIZE)[i].addr as int,
                plan_of(addr, SERVO_CONFIG_SIZE)[i].size as int,
            ),
    ensures
        joined(parts) == cfg.bytes(),
        ServoConfig::from_words(le_words(joined(parts))) == cfg,
{
    cfg.lemma_round_trip();
    let after = apply_writes(m, writes_of(ws));
    lemma_chunked_read(after, addr, SERVO_CONFIG_SIZE, parts);
    assert forall|k: int| addr <= k < addr + SERVO_CONFIG_SIZE implies #[trigger] after(k)
        == write_mem(m, addr as int, cfg.bytes())(k) by {
        lemma_chunked_write(m, addr, cfg.bytes(), ws, k);
    }
    assert(read_mem(after, addr as int, SERVO_CONFIG_SIZE as int) =~= cfg.bytes());
}

} // verus!
