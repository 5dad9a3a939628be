use servo_tuner::commands::{send_command, Command, CommandBufferInfo};
use servo_tuner::error::LinkError;

const HEADER: u32 = 0x2000_0040;
const DATA: u32 = 0x2000_0100;

fn info(front: u32, back: u32, capacity: u32) -> CommandBufferInfo {
    CommandBufferInfo { front, back, capacity, data_addr: DATA }
}

#[test]
fn full_ring_refuses_command() {
    let r = send_command(&info(0, 7, 8), HEADER, &Command::MotorStart);
    assert_eq!(r, Err(LinkError::QueueFull));
    assert!(info(0, 7, 8).is_full());
}

#[test]
fn ring_with_one_free_slot_takes_command() {
    let writes = send_command(&info(0, 6, 8), HEADER, &Command::MotorStart).unwrap();
    assert_eq!(writes.len(), 2);
    assert_eq!(writes[0].addr, DATA + 6 * 8);
    assert_eq!(writes[0].data, Command::MotorStart.to_bytes());
    assert_eq!(writes[1].addr, HEADER + 4);
    assert_eq!(writes[1].data, 7u32.to_le_bytes().to_vec());
}

#[test]
fn back_wraps_to_zero() {
    let writes = send_command(&info(3, 7, 8), HEADER, &Command::MotorStop).unwrap();
    assert_eq!(writes[0].addr, DATA + 7 * 8);
    assert_eq!(writes[1].data, 0u32.to_le_bytes().to_vec());
}

#[test]
fn ring_of_capacity_zero_is_full() {
    assert_eq!(send_command(&info(0, 0, 0), HEADER, &Command::MotorStop), Err(LinkError::QueueFull));
}

#[test]
fn ring_takes_capacity_minus_one_commands() {
    for cap in 2u32..12 {
        let mut ring = info(cap / 2, cap / 2, cap);
        let mut accepted = 0;
        loop {
            match send_command(&ring, HEADER, &Command::ClearFaultState) {
                Ok(w) => {
                    accepted += 1;
                    ring.back = u32::from_le_bytes([w[1].data[0], w[1].data[1], w[1].data[2], w[1].data[3]]);
                }
                Err(e) => {
                    assert_eq!(e, LinkError::QueueFull);
                    break;
                }
            }
        }
        assert_eq!(accepted, cap - 1);
        for drained in 0..=accepted {
            let front = (cap / 2 + drained) % cap;
            let pending = (ring.back + cap - front) % cap;
            assert_eq!(pending, accepted - drained);
        }
    }
}

#[test]
fn misaligned_ring_is_refused() {
    let r = send_command(
        &CommandBufferInfo { front: 0, back: 0, capacity: 4, data_addr: 0x2000_0102 },
        HEADER,
        &Command::MotorStop,
    );
    assert_eq!(r, Err(LinkError::Alignment));
    let r = send_command(
        &CommandBufferInfo { front: 0, back: 1, capacity: 4, data_addr: 0xffff_fffc },
        HEADER,
        &Command::MotorStop,
    );
    assert_eq!(r, Err(LinkError::OutOfRange));
}
