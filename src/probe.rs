//! The ST-Link probe's command protocol: which USB devices are probes, and
//! the fixed 16-byte frames that carry its commands.
use vstd::prelude::*;
use crate::error::LinkError;
use crate::marshal::MAX_TRANSFER;
use crate::wire::{le_bytes, push_le};

verus! {

/// Length of every command frame sent to the probe.
pub const STLINK_CMD_SIZE_V2: u32 = 16;

/// Smallest read buffer the probe's bulk endpoint accepts.
pub const MIN_READ_BUFFER: u32 = 64;

pub const STLINK_DEBUG_COMMAND: u8 = 0xf2;
pub const STLINK_DFU_COMMAND: u8 = 0xf3;
pub const STLINK_SWIM_COMMAND: u8 = 0xf4;
pub const STLINK_GET_CURRENT_MODE: u8 = 0xf5;

pub const STLINK_MODE_DFU: u8 = 0x00;
pub const STLINK_MODE_DEBUG: u8 = 0x02;
pub const STLINK_MODE_SWIM: u8 = 0x03;

pub const STLINK_DFU_EXIT: u8 = 0x07;
pub const STLINK_SWIM_EXIT: u8 = 0x01;

pub const STLINK_DEBUG_READMEM_32BIT: u8 = 0x07;
pub const STLINK_DEBUG_WRITEMEM_32BIT: u8 = 0x08;
pub const STLINK_DEBUG_EXIT: u8 = 0x21;
pub const STLINK_DEBUG_APIV2_ENTER: u8 = 0x30;
pub const STLINK_DEBUG_APIV2_RESETSYS: u8 = 0x32;
pub const STLINK_DEBUG_APIV2_SWD_SET_FREQ: u8 = 0x43;
pub const STLINK_DEBUG_APIV2_READMEM_16BIT: u8 = 0x47;
pub const STLINK_DEBUG_APIV2_WRITEMEM_16BIT: u8 = 0x48;
pub const STLINK_DEBUG_ENTER_SWD: u8 = 0xa3;

/// Status byte with which the probe acknowledges a debug command.
pub const STLINK_DEBUG_ERR_OK: u8 = 0x80;

/// Hardware generation of a probe.
#[derive(Clone, Copy, Debug, PartialEq, Eq, Structural)]
pub enum STLinkVersion {
    V2,
    V2_1,
    V3E,
    V3,
}

/// How a probe model shows itself on USB, and its bulk endpoints.
#[derive(Clone, Copy, Debug, PartialEq, Eq, Structural)]
pub struct UsbDescriptor {
    pub version: STLinkVersion,
    pub vendor_id: u16,
    pub product_id: u16,
    pub out_pipe: u8,
    pub in_pipe: u8,
}

/// The probe models this host knows.
pub open spec fn known_devices() -> Seq<UsbDescriptor> {
    seq![
        UsbDescriptor {
            version: STLinkVersion::V2,
            vendor_id: 0x0483,
            product_id: 0x3748,
            out_pipe: 0x02,
            in_pipe: 0x81,
        },
        UsbDescriptor {
            version: STLinkVersion::V2_1,
            vendor_id: 0x0483,
            product_id: 0x374b,
            out_pipe: 0x01,
            in_pipe: 0x81,
        },
        UsbDescriptor {
            version: STLinkVersion::V2_1,
            vendor_id: 0x0483,
            product_id: 0x3752,
            out_pipe: 0x01,
            in_pipe: 0x81,
        },
        UsbDescriptor {
            version: STLinkVersion::V3E,
            vendor_id: 0x0483,
            product_id: 0x374e,
            out_pipe: 0x01,
            in_pipe: 0x81,
        },
        UsbDescriptor {
            version: STLinkVersion::V3,
            vendor_id: 0x0483,
            product_id: 0x374f,
            out_pipe: 0x01,
            in_pipe: 0x81,
        },
        UsbDescriptor {
            version: STLinkVersion::V3,
            vendor_id: 0x0483,
            product_id: 0x3753,
            out_pipe: 0x01,
            in_pipe: 0x81,
        },
    ]
}

/// The probe models this host knows, in table order.
pub fn device_types() -> (r: Vec<UsbDescriptor>)
    ensures
        r@ == known_devices(),
{
    let r = vec![
        UsbDescriptor {
            version: STLinkVersion::V2,
            vendor_id: 0x0483,
            product_id: 0x3748,
            out_pipe: 0x02,
            in_pipe: 0x81,
        },
        UsbDescriptor {
            version: STLinkVersion::V2_1,
            vendor_id: 0x0483,
            product_id: 0x374b,
            out_pipe: 0x01,
            in_pipe: 0x81,
        },
        UsbDescriptor {
            version: STLinkVersion::V2_1,
            vendor_id: 0x0483,
            product_id: 0x3752,
            out_pipe: 0x01,
            in_pipe: 0x81,
        },
        UsbDescriptor {
            version: STLinkVersion::V3E,
            vendor_id: 0x0483,
            product_id: 0x374e,
            out_pipe: 0x01,
            in_pipe: 0x81,
        },
        UsbDescriptor {
            version: STLinkVersion::V3,
            vendor_id: 0x0483,
            product_id: 0x374f,
            out_pipe: 0x01,
            in_pipe: 0x81,
        },
        UsbDescriptor {
            version: STLinkVersion::V3,
            vendor_id: 0x0483,
            product_id: 0x3753,
            out_pipe: 0x01,
            in_pipe: 0x81,
        },
    ];
    assert(r@ =~= known_devices());
    r
}

/// Whether descriptor `d` is the model with these USB ids.
pub open spec fn matches_ids(d: UsbDescriptor, vendor_id: u16, product_id: u16) -> bool {
    d.vendor_id == vendor_id && d.product_id == product_id
}

/// The known probe model with these USB ids; `None` for any other device.
pub fn find_descriptor(vendor_id: u16, product_id: u16) -> (r: Option<UsbDescriptor>)
    ensures
        r.is_none() <==> forall|i: int|
            0 <= i < known_devices().len() ==> !matches_ids(
                #[trigger] known_devices()[i],
                vendor_id,
                product_id,
            ),
        r.is_some() ==> known_devices().contains(r.unwrap()) && matches_ids(
            r.unwrap(),
            vendor_id,
            product_id,
        ),
{
    let table = device_types();
    let mut i: usize = 0;
    while i < table.len()
        invariant
            table@ == known_devices(),
            i <= table@.len(),
            forall|k: int| 0 <= k < i ==> !matches_ids(#[trigger] table@[k], vendor_id, product_id),
        decreases table@.len() - i,
    {
        let d = table[i];
        if d.vendor_id == vendor_id && d.product_id == product_id {
            return Some(d);
        }
        i = i + 1;
    }
    None
}

/// SWD clock settings of the probe.
#[derive(Clone, Copy, Debug, PartialEq, Eq, Structural)]
pub enum StlinkDebugApiv2SwdFreq {
    Freq4000000,
    Freq1800000,
    Freq1200000,
    Freq950000,
    Freq480000,
    Freq240000,
    Freq125000,
    Freq100000,
    Freq50000,
    Freq25000,
}

impl StlinkDebugApiv2SwdFreq {
    /// The divider byte the probe takes for this clock.
    pub open spec fn spec_code(self) -> u8 {
        match self {
            StlinkDebugApiv2SwdFreq::Freq4000000 => 0,
            StlinkDebugApiv2SwdFreq::Freq1800000 => 1,
            StlinkDebugApiv2SwdFreq::Freq1200000 => 2,
            StlinkDebugApiv2SwdFreq::Freq950000 => 3,
            StlinkDebugApiv2SwdFreq::Freq480000 => 7,
            StlinkDebugApiv2SwdFreq::Freq240000 => 15,
            StlinkDebugApiv2SwdFreq::Freq125000 => 31,
            StlinkDebugApiv2SwdFreq::Freq100000 => 40,
            StlinkDebugApiv2SwdFreq::Freq50000 => 79,
            StlinkDebugApiv2SwdFreq::Freq25000 => 158,
        }
    }

    pub fn code(&self) -> (r: u8)
        ensures
            r == self.spec_code(),
    {
        match self {
            StlinkDebugApiv2SwdFreq::Freq4000000 => 0,
            StlinkDebugApiv2SwdFreq::Freq1800000 => 1,
            StlinkDebugApiv2SwdFreq::Freq1200000 => 2,
            StlinkDebugApiv2SwdFreq::Freq950000 => 3,
            StlinkDebugApiv2SwdFreq::Freq480000 => 7,
            StlinkDebugApiv2SwdFreq::Freq240000 => 15,
            StlinkDebugApiv2SwdFreq::Freq125000 => 31,
            StlinkDebugApiv2SwdFreq::Freq100000 => 40,
            StlinkDebugApiv2SwdFreq::Freq50000 => 79,
            StlinkDebugApiv2SwdFreq::Freq25000 => 158,
        }
    }
}

/// `cmd` padded with zero bytes to a full command frame.
pub open spec fn frame_of(cmd: Seq<u8>) -> Seq<u8> {
    cmd + Seq::new((STLINK_CMD_SIZE_V2 - cmd.len()) as nat, |i: int| 0u8)
}

/// Pads the command bytes `cmd` into a 16-byte frame.
pub fn command_frame(cmd: &[u8]) -> (r: Vec<u8>)
    requires
        cmd@.len() <= STLINK_CMD_SIZE_V2,
    ensures
        r@ == frame_of(cmd@),
        r@.len() == STLINK_CMD_SIZE_V2,
{
    let mut out: Vec<u8> = Vec::new();
    let mut i: usize = 0;
    while i < 16
        invariant
            cmd@.len() <= 16,
            i <= 16,
            out@ == frame_of(cmd@).take(i as int),
        decreases 16 - i,
    {
        if i < cmd.len() {
            out.push(cmd[i]);
        } else {
            out.push(0);
        }
        assert(out@ =~= frame_of(cmd@).take(i + 1));
        i = i + 1;
    }
    assert(out@ =~= frame_of(cmd@));
    out
}

/// The frame that asks the probe for its current mode.
pub fn current_mode_command() -> (r: Vec<u8>)
    ensures
        r@ == frame_of(seq![STLINK_GET_CURRENT_MODE]),
{
    let cmd: Vec<u8> = vec![STLINK_GET_CURRENT_MODE];
    command_frame(cmd.as_slice())
}

/// The command bytes that leave the probe mode `mode`, if it is one this
/// host knows how to leave.
pub open spec fn exit_command(mode: u8) -> Option<Seq<u8>> {
    if mode == STLINK_MODE_DFU {
        Some(seq![STLINK_DFU_COMMAND, STLINK_DFU_EXIT])
    } else if mode == STLINK_MODE_DEBUG {
        Some(seq![STLINK_DEBUG_COMMAND, STLINK_DEBUG_EXIT])
    } else if mode == STLINK_MODE_SWIM {
        Some(seq![STLINK_SWIM_COMMAND, STLINK_SWIM_EXIT])
    } else {
        None
    }
}

/// The frame that leaves the mode the probe reported in `response`, its
/// answer to `current_mode_command`. `Protocol` unless the answer is two
/// bytes long and names a mode this host knows how to leave.
pub fn leave_mode_command(response: &[u8]) -> (r: Result<Vec<u8>, LinkError>)
    ensures
        r is Ok <==> (response@.len() == 2 && exit_command(response@[0]).is_some()),
        r is Ok ==> r.unwrap()@ == frame_of(exit_command(response@[0]).unwrap()),
        r is Err ==> r == Err::<Vec<u8>, LinkError>(LinkError::Protocol),
{
    if response.len() != 2 {
        return Err(LinkError::Protocol);
    }
    let mode = response[0];
    let cmd: Vec<u8> = if mode == STLINK_MODE_DFU {
        vec![STLINK_DFU_COMMAND, STLINK_DFU_EXIT]
    } else if mode == STLINK_MODE_DEBUG {
        vec![STLINK_DEBUG_COMMAND, STLINK_DEBUG_EXIT]
    } else if mode == STLINK_MODE_SWIM {
        vec![STLINK_SWIM_COMMAND, STLINK_SWIM_EXIT]
    } else {
        return Err(LinkError::Protocol);
    };
    assert(cmd@ =~= exit_command(mode).unwrap());
    Ok(command_frame(cmd.as_slice()))
}

/// The frame that sets the SWD clock.
pub fn swd_freq_command(freq: StlinkDebugApiv2SwdFreq) -> (r: Vec<u8>)
    ensures
        r@ == frame_of(
            seq![STLINK_DEBUG_COMMAND, STLINK_DEBUG_APIV2_SWD_SET_FREQ, freq.spec_code()],
        ),
{
    let cmd: Vec<u8> = vec![STLINK_DEBUG_COMMAND, STLINK_DEBUG_APIV2_SWD_SET_FREQ, freq.code()];
    assert(cmd@ =~= seq![STLINK_DEBUG_COMMAND, STLINK_DEBUG_APIV2_SWD_SET_FREQ, freq.spec_code()]);
    command_frame(cmd.as_slice())
}

/// Checks the probe's answer to a debug command: `Protocol` unless it
/// opens with the acknowledging status byte.
pub fn check_status(response: &[u8]) -> (r: Result<(), LinkError>)
    ensures
        r is Ok <==> (response@.len() >= 1 && response@[0] == STLINK_DEBUG_ERR_OK),
        r is Err ==> r == Err::<(), LinkError>(LinkError::Protocol),
{
    if response.len() >= 1 && response[0] == STLINK_DEBUG_ERR_OK {
        Ok(())
    } else {
        Err(LinkError::Protocol)
    }
}

/// The frame that puts the probe into SWD debug mode.
pub fn enter_debug_swd_command() -> (r: Vec<u8>)
    ensures
        r@ == frame_of(seq![STLINK_DEBUG_COMMAND, STLINK_DEBUG_APIV2_ENTER, STLINK_DEBUG_ENTER_SWD]),
{
    let cmd: Vec<u8> = vec![STLINK_DEBUG_COMMAND, STLINK_DEBUG_APIV2_ENTER, STLINK_DEBUG_ENTER_SWD];
    command_frame(cmd.as_slice())
}

/// The frame that resets the target system.
pub fn debug_resetsys_command() -> (r: Vec<u8>)
    ensures
        r@ == frame_of(seq![STLINK_DEBUG_COMMAND, STLINK_DEBUG_APIV2_RESETSYS]),
{
    let cmd: Vec<u8> = vec![STLINK_DEBUG_COMMAND, STLINK_DEBUG_APIV2_RESETSYS];
    command_frame(cmd.as_slice())
}

/// The bytes of a memory command: opcode, address and size.
pub open spec fn mem_command(op: u8, addr: u32, size: u32) -> Seq<u8> {
    seq![STLINK_DEBUG_COMMAND, op] + le_bytes(addr) + le_bytes(size)
}

/// Whether a memory command with this unit may move `size` bytes at `addr`.
pub open spec fn mem_ok(unit: u32, addr: u32, size: u32) -> bool {
    addr % unit == 0 && size % unit == 0 && size <= MAX_TRANSFER
}

/// The error for a memory command that `mem_ok` refuses.
pub open spec fn mem_error(unit: u32, addr: u32, size: u32) -> LinkError {
    if addr % unit != 0 || size % unit != 0 {
        LinkError::Alignment
    } else {
        LinkError::TooLarge
    }
}

fn mem_frame(op: u8, unit: u32, addr: u32, size: u32) -> (r: Result<Vec<u8>, LinkError>)
    requires
        unit == 2 || unit == 4,
    ensures
        r is Ok <==> mem_ok(unit, addr, size),
        r is Ok ==> r.unwrap()@ == frame_of(mem_command(op, addr, size)),
        r is Err ==> r == Err::<Vec<u8>, LinkError>(mem_error(unit, addr, size)),
{
    if addr % unit != 0 || size % unit != 0 {
        return Err(LinkError::Alignment);
    }
    if size > MAX_TRANSFER {
        return Err(LinkError::TooLarge);
    }
    let mut cmd: Vec<u8> = vec![STLINK_DEBUG_COMMAND, op];
    push_le(&mut cmd, addr);
    push_le(&mut cmd, size);
    assert(cmd@ =~= mem_command(op, addr, size));
    Ok(command_frame(cmd.as_slice()))
}

/// The frame that reads `size` bytes of target memory at `addr`, word by
/// word; refused before any traffic when misaligned or too large.
pub fn read_mem32_command(addr: u32, size: u32) -> (r: Result<Vec<u8>, LinkError>)
    ensures
        r is Ok <==> mem_ok(4, addr, size),
        r is Ok ==> r.unwrap()@ == frame_of(mem_command(STLINK_DEBUG_READMEM_32BIT, addr, size)),
        r is Err ==> r == Err::<Vec<u8>, LinkError>(mem_error(4, addr, size)),
{
    mem_frame(STLINK_DEBUG_READMEM_32BIT, 4, addr, size)
}

/// The frame that announces a word-by-word write of `size` bytes at `addr`;
/// the data follows it in a second transfer.
pub fn write_mem32_command(addr: u32, size: u32) -> (r: Result<Vec<u8>, LinkError>)
    ensures
        r is Ok <==> mem_ok(4, addr, size),
        r is Ok ==> r.unwrap()@ == frame_of(mem_command(STLINK_DEBUG_WRITEMEM_32BIT, addr, size)),
        r is Err ==> r == Err::<Vec<u8>, LinkError>(mem_error(4, addr, size)),
{
    mem_frame(STLINK_DEBUG_WRITEMEM_32BIT, 4, addr, size)
}

/// The frame that reads `size` bytes at `addr` in halfwords.
pub fn read_mem16_command(addr: u32, size: u32) -> (r: Result<Vec<u8>, LinkError>)
    ensures
        r is Ok <==> mem_ok(2, addr, size),
        r is Ok ==> r.unwrap()@ == frame_of(
            mem_command(STLINK_DEBUG_APIV2_READMEM_16BIT, addr, size),
        ),
        r is Err ==> r == Err::<Vec<u8>, LinkError>(mem_error(2, addr, size)),
{
    mem_frame(STLINK_DEBUG_APIV2_READMEM_16BIT, 2, addr, size)
}

/// The frame that announces a halfword write of `size` bytes at `addr`.
pub fn write_mem16_command(addr: u32, size: u32) -> (r: Result<Vec<u8>, LinkError>)
    ensures
        r is Ok <==> mem_ok(2, addr, size),
        r is Ok ==> r.unwrap()@ == frame_of(
            mem_command(STLINK_DEBUG_APIV2_WRITEMEM_16BIT, addr, size),
        ),
        r is Err ==> r == Err::<Vec<u8>, LinkError>(mem_error(2, addr, size)),
{
    mem_frame(STLINK_DEBUG_APIV2_WRITEMEM_16BIT, 2, addr, size)
}

/// Whether a buffer of `len` bytes may take a read from the probe: at
/// least one USB packet, and whole words, as the probe pads short answers.
pub open spec fn read_buffer_ok(len: int) -> bool {
    len >= MIN_READ_BUFFER && len % 4 == 0
}

pub fn is_read_buffer_ok(len: usize) -> (r: bool)
    ensures
        r == read_buffer_ok(len as int),
{
    len >= 64 && len % 4 == 0
}

/// Size of the buffer that takes the answer to a read of `size` bytes:
/// `size` rounded up to whole words, and at least one USB packet.
pub fn response_buffer_len(size: u32) -> (r: usize)
    requires
        size <= MAX_TRANSFER,
    ensures
        read_buffer_ok(r as int),
        r >= size,
        r == if size < MIN_READ_BUFFER {
            MIN_READ_BUFFER as int
        } else {
            (size + 3) / 4 * 4
        },
{
    if size < MIN_READ_BUFFER {
        64
    } else {
        ((size as usize + 3) / 4) * 4
    }
}

/// The `size` bytes of a memory read from the `n` bytes the probe
/// delivered into `rx`; `Transport` when it delivered fewer.
pub fn take_response(rx: &[u8], n: usize, size: u32) -> (r: Result<Vec<u8>, LinkError>)
    ensures
        r is Ok <==> (size <= n && n <= rx@.len()),
        r is Ok ==> r.unwrap()@ == rx@.take(size as int),
        r is Err ==> r == Err::<Vec<u8>, LinkError>(LinkError::Transport),
{
    if n > rx.len() || (size as usize) > n {
        return Err(LinkError::Transport);
    }
    let mut out: Vec<u8> = Vec::new();
    let mut i: usize = 0;
    while i < size as usize
        invariant
            size <= rx@.len(),
            i <= size,
            out@ == rx@.take(i as int),
        decreases size - i,
    {
        out.push(rx[i]);
        assert(out@ =~= rx@.take(i + 1));
        i = i + 1;
    }
    Ok(out)
}

} // verus!
