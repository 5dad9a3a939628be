//! The outbound command ring: commands for the firmware, and the bounded
//! circular buffer in target memory through which the host hands them over.
//!
//! The host produces at `back`, the firmware consumes at `front`; one slot
//! stays free so that a full ring (`back + 1 == front`, modulo the
//! capacity) differs from an empty one (`back == front`).
use vstd::prelude::*;
use vstd::arithmetic::div_mod::{
    lemma_add_mod_noop, lemma_mod_sub_multiples_vanish,
    lemma_mod_twice, lemma_small_mod, lemma_sub_mod_noop,
};
use crate::error::LinkError;
use crate::marshal::{check_transfer, transfer_error, transfer_ok, WriteChunk};
use crate::wire::{le_bytes, le_words, push_le, read_words, words_le};

verus! {

/// Size in bytes of `Command` in target memory: a tag word and a payload word.
pub const COMMAND_SIZE: u32 = 8;

/// Size in bytes of `CommandBufferInfo` in target memory.
pub const COMMAND_BUFFER_INFO_SIZE: u32 = 16;

/// A command for the firmware. Float payloads are `f32` bit patterns.
#[derive(Clone, Copy, Debug, PartialEq, Eq)]
pub enum Command {
    MotorStop,
    MotorStart,
    SetStepDirectionControl,
    SetPositionControl,
    SetVelocityControl,
    SetTorqueControl,
    ClearFaultState,
    PositionCommand { position: u32 },
    VelocityCommand { velocity: u32 },
    TorqueCommand { torque: u32 },
    FindUpperMotionLimit,
    FindLowerMotionLimit,
    LoadServoConfig,
    SaveServoConfig,
    SetMotionProfile { profile: u32 },
}

impl Command {
    /// The variant's tag in target memory, its place in declaration order.
    pub open spec fn tag(self) -> u32 {
        match self {
            Command::MotorStop => 0,
            Command::MotorStart => 1,
            Command::SetStepDirectionControl => 2,
            Command::SetPositionControl => 3,
            Command::SetVelocityControl => 4,
            Command::SetTorqueControl => 5,
            Command::ClearFaultState => 6,
            Command::PositionCommand { .. } => 7,
            Command::VelocityCommand { .. } => 8,
            Command::TorqueCommand { .. } => 9,
            Command::FindUpperMotionLimit => 10,
            Command::FindLowerMotionLimit => 11,
            Command::LoadServoConfig => 12,
            Command::SaveServoConfig => 13,
            Command::SetMotionProfile { .. } => 14,
        }
    }

    /// The payload word; zero for a variant without one.
    pub open spec fn payload(self) -> u32 {
        match self {
            Command::PositionCommand { position } => position,
            Command::VelocityCommand { velocity } => velocity,
            Command::TorqueCommand { torque } => torque,
            Command::SetMotionProfile { profile } => profile,
            _ => 0,
        }
    }

    pub open spec fn bytes(self) -> Seq<u8> {
        le_bytes(self.tag()) + le_bytes(self.payload())
    }

    pub fn to_bytes(&self) -> (r: Vec<u8>)
        ensures
            r@ == self.bytes(),
            r@.len() == COMMAND_SIZE,
    {
        let (tag, payload): (u32, u32) = match self {
            Command::MotorStop => (0, 0),
            Command::MotorStart => (1, 0),
            Command::SetStepDirectionControl => (2, 0),
            Command::SetPositionControl => (3, 0),
            Command::SetVelocityControl => (4, 0),
            Command::SetTorqueControl => (5, 0),
            Command::ClearFaultState => (6, 0),
            Command::PositionCommand { position } => (7, *position),
            Command::VelocityCommand { velocity } => (8, *velocity),
            Command::TorqueCommand { torque } => (9, *torque),
            Command::FindUpperMotionLimit => (10, 0),
            Command::FindLowerMotionLimit => (11, 0),
            Command::LoadServoConfig => (12, 0),
            Command::SaveServoConfig => (13, 0),
            Command::SetMotionProfile { profile } => (14, *profile),
        };
        let mut out: Vec<u8> = Vec::new();
        push_le(&mut out, tag);
        push_le(&mut out, payload);
        assert(out@ =~= self.bytes());
        out
    }
}

/// Header of the command ring in target memory.
#[derive(Clone, Copy, Debug, PartialEq, Eq, Structural)]
pub struct CommandBufferInfo {
    pub front: u32,
    pub back: u32,
    pub capacity: u32,
    pub data_addr: u32,
}

/// Byte offset of the `back` field within the ring header.
pub const BACK_FIELD_OFFSET: u32 = 4;

impl CommandBufferInfo {
    pub open spec fn words(self) -> Seq<u32> {
        seq![self.front, self.back, self.capacity, self.data_addr]
    }

    pub open spec fn bytes(self) -> Seq<u8> {
        words_le(self.words())
    }

    pub open spec fn from_words(w: Seq<u32>) -> CommandBufferInfo {
        CommandBufferInfo { front: w[0], back: w[1], capacity: w[2], data_addr: w[3] }
    }

    /// Reads the header from its bytes; `None` unless there are exactly
    /// `COMMAND_BUFFER_INFO_SIZE` of them.
    pub fn from_bytes(b: &[u8]) -> (r: Option<CommandBufferInfo>)
        ensures
            r.is_some() <==> b@.len() == COMMAND_BUFFER_INFO_SIZE,
            r.is_some() ==> r.unwrap() == CommandBufferInfo::from_words(le_words(b@)),
    {
        if b.len() != 16 {
            return None;
        }
        let w = read_words(b, 0, 4);
        assert(b@.subrange(0, 16) =~= b@);
        Some(CommandBufferInfo { front: w[0], back: w[1], capacity: w[2], data_addr: w[3] })
    }

    /// Whether the ring has no free slot. A ring of capacity 0 has none.
    pub open spec fn spec_is_full(self) -> bool {
        self.capacity == 0 || (self.back + 1) % (self.capacity as int) == self.front
    }

    /// Where `back` goes once a command is stored.
    pub open spec fn spec_next_back(self) -> u32
        recommends
            self.capacity > 0,
    {
        ((self.back + 1) % (self.capacity as int)) as u32
    }

    /// Address of the slot the next command goes to.
    pub open spec fn slot_addr(self) -> int {
        self.data_addr + COMMAND_SIZE * self.back
    }

    pub fn is_full(&self) -> (r: bool)
        ensures
            r == self.spec_is_full(),
    {
        self.capacity == 0 || ((self.back as u64 + 1) % (self.capacity as u64)) as u32 == self.front
    }

    pub fn next_back(&self) -> (r: u32)
        requires
            self.capacity > 0,
        ensures
            r == self.spec_next_back(),
    {
        ((self.back as u64 + 1) % (self.capacity as u64)) as u32
    }

    /// The header once the host has stored one more command.
    pub open spec fn pushed(self) -> CommandBufferInfo {
        CommandBufferInfo { back: self.spec_next_back(), ..self }
    }

    /// The header once the firmware has taken one command.
    pub open spec fn popped(self) -> CommandBufferInfo {
        CommandBufferInfo { front: ((self.front + 1) % (self.capacity as int)) as u32, ..self }
    }

    /// Number of commands waiting in the ring.
    pub open spec fn pending(self) -> int {
        (self.back - self.front) % (self.capacity as int)
    }
}

/// Whether a command can be placed for a ring whose header lies at
/// `header_addr`: both writes aligned and inside the address space.
pub open spec fn enqueue_in_range(info: CommandBufferInfo, header_addr: u32) -> bool {
    &&& info.slot_addr() <= u32::MAX
    &&& transfer_ok(info.slot_addr() as u32, COMMAND_SIZE)
    &&& header_addr + BACK_FIELD_OFFSET <= u32::MAX
    &&& transfer_ok((header_addr + BACK_FIELD_OFFSET) as u32, 4)
}

/// The error for a ring whose writes `enqueue_in_range` refuses.
pub open spec fn enqueue_range_error(info: CommandBufferInfo, header_addr: u32) -> LinkError {
    if info.slot_addr() > u32::MAX || header_addr + BACK_FIELD_OFFSET > u32::MAX {
        LinkError::OutOfRange
    } else if !transfer_ok(info.slot_addr() as u32, COMMAND_SIZE) {
        transfer_error(info.slot_addr() as u32, COMMAND_SIZE)
    } else {
        transfer_error((header_addr + BACK_FIELD_OFFSET) as u32, 4)
    }
}

/// The two writes that hand `cmd` to the firmware through the ring whose
/// header, `info`, was just read from `header_addr`: the command into the
/// slot at `back`, then the advanced `back` into the header. `QueueFull`
/// when the ring has no free slot.
pub fn send_command(info: &CommandBufferInfo, header_addr: u32, cmd: &Command) -> (r: Result<
    Vec<WriteChunk>,
    LinkError,
>)
    ensures
        info.spec_is_full() ==> r == Err::<Vec<WriteChunk>, LinkError>(LinkError::QueueFull),
        !info.spec_is_full() && !enqueue_in_range(*info, header_addr) ==> r == Err::<
            Vec<WriteChunk>,
            LinkError,
        >(enqueue_range_error(*info, header_addr)),
        r is Ok <==> !info.spec_is_full() && enqueue_in_range(*info, header_addr),
        r is Ok ==> r.unwrap()@.len() == 2 && r.unwrap()@[0].addr == info.slot_addr()
            && r.unwrap()@[0].data@ == cmd.bytes() && r.unwrap()@[1].addr == header_addr
            + BACK_FIELD_OFFSET && r.unwrap()@[1].data@ == le_bytes(info.spec_next_back()),
{
    if info.is_full() {
        return Err(LinkError::QueueFull);
    }
    let slot = info.data_addr as u64 + (COMMAND_SIZE as u64) * (info.back as u64);
    if slot > u32::MAX as u64 || header_addr as u64 + BACK_FIELD_OFFSET as u64 > u32::MAX as u64 {
        return Err(LinkError::OutOfRange);
    }
    let slot = slot as u32;
    match check_transfer(slot, COMMAND_SIZE) {
        Err(e) => {
            return Err(e);
        },
        Ok(()) => {},
    }
    let back_addr = header_addr + BACK_FIELD_OFFSET;
    match check_transfer(back_addr, 4) {
        Err(e) => {
            return Err(e);
        },
        Ok(()) => {},
    }
    let mut back_bytes: Vec<u8> = Vec::new();
    push_le(&mut back_bytes, info.next_back());
    assert(back_bytes@ =~= le_bytes(info.spec_next_back()));
    let mut out: Vec<WriteChunk> = Vec::new();
    out.push(WriteChunk { addr: slot, data: cmd.to_bytes() });
    out.push(WriteChunk { addr: back_addr, data: back_bytes });
    Ok(out)
}

/// The header after `k` commands stored by the host.
pub open spec fn pushed_n(info: CommandBufferInfo, k: nat) -> CommandBufferInfo
    decreases k,
{
    if k == 0 {
        info
    } else {
        pushed_n(info, (k - 1) as nat).pushed()
    }
}

/// The header after `n` commands taken by the firmware.
pub open spec fn popped_n(info: CommandBufferInfo, n: nat) -> CommandBufferInfo
    decreases n,
{
    if n == 0 {
        info
    } else {
        popped_n(info, (n - 1) as nat).popped()
    }
}

proof fn lemma_pushed_n(info: CommandBufferInfo, k: nat)
    requires
        info.capacity > 0,
        info.back < info.capacity,
    ensures
        pushed_n(info, k).back == (info.back + k) % (info.capacity as int),
        pushed_n(info, k).front == info.front,
        pushed_n(info, k).capacity == info.capacity,
    decreases k,
{
    let c = info.capacity as int;
    if k == 0 {
        lemma_small_mod(info.back as nat, c as nat);
    } else {
        lemma_pushed_n(info, (k - 1) as nat);
        let b = pushed_n(info, (k - 1) as nat).back as int;
        lemma_add_mod_noop(info.back + k - 1, 1, c);
        lemma_mod_twice(info.back + k - 1, c);
        if c > 1 {
            lemma_small_mod(1, c as nat);
            assert((b + 1) % c == (info.back + k) % c);
        } else {
            assert((b + 1) % c == 0);
            assert((info.back + k) % c == 0);
        }
    }
}

proof fn lemma_popped_n(info: CommandBufferInfo, n: nat)
    requires
        info.capacity > 0,
        info.front < info.capacity,
    ensures
        popped_n(info, n).front == (info.front + n) % (info.capacity as int),
        popped_n(info, n).back == info.back,
        popped_n(info, n).capacity == info.capacity,
    decreases n,
{
    let c = info.capacity as int;
    if n == 0 {
        lemma_small_mod(info.front as nat, c as nat);
    } else {
        lemma_popped_n(info, (n - 1) as nat);
        let f = popped_n(info, (n - 1) as nat).front as int;
        lemma_add_mod_noop(info.front + n - 1, 1, c);
        lemma_mod_twice(info.front + n - 1, c);
        if c > 1 {
            lemma_small_mod(1, c as nat);
            assert((f + 1) % c == (info.front + n) % c);
        } else {
            assert((f + 1) % c == 0);
            assert((info.front + n) % c == 0);
        }
    }
}

/// A ring of capacity `C >= 2` that starts empty takes exactly `C - 1`
/// commands: each of the first `k` stores finds a free slot, and the ring
/// is full after `k` stores exactly when `k == C - 1`. Once the firmware
/// has taken `n <= k` of them, `(back - front) mod C` counts those left.
pub proof fn lemma_ring_capacity(info: CommandBufferInfo, k: nat, n: nat)
    requires
        info.capacity >= 2,
        info.front < info.capacity,
        info.back == info.front,
        k <= info.capacity - 1,
        n <= k,
    ensures
        forall|j: nat| j < k ==> !(#[trigger] pushed_n(info, j)).spec_is_full(),
        pushed_n(info, k).spec_is_full() <==> k == info.capacity - 1,
        popped_n(pushed_n(info, k), n).pending() == k - n,
{
    let c = info.capacity as int;
    let f = info.front as int;
    assert forall|j: nat| j <= k implies (#[trigger] pushed_n(info, j)).spec_is_full() <==> j == c
        - 1 by {
        lemma_pushed_n(info, j);
        let t: int = j as int + 1;
        lemma_add_mod_noop(f + j, 1, c);
        lemma_mod_twice(f + j, c);
        lemma_small_mod(1, c as nat);
        assert((pushed_n(info, j).back + 1) % c == (f + t) % c);
        if f + t < c {
            lemma_small_mod((f + t) as nat, c as nat);
        } else {
            lemma_mod_sub_multiples_vanish(f + t, c);
            lemma_small_mod((f + t - c) as nat, c as nat);
        }
    }
    let pk = pushed_n(info, k);
    lemma_pushed_n(info, k);
    lemma_popped_n(pk, n);
    let q = popped_n(pk, n);
    assert(q.back == (f + k) % c);
    assert(q.front == (f + n) % c);
    lemma_sub_mod_noop(f + k, f + n, c);
    lemma_mod_twice(f + k - (f + n), c);
    lemma_small_mod((k - n) as nat, c as nat);
    assert(q.pending() == ((q.back as int) - (q.front as int)) % c);
    assert((((f + k) % c) - ((f + n) % c)) % c == (k - n) % c);
}

} // verus!
