use servo_tuner::error::LinkError;
use servo_tuner::marshal::{check_transfer, element_range, join_reads, plan_read, plan_write, Chunk};
use servo_tuner::records::ServoConfig;

const BASE: u32 = 0x2000_0000;

fn memory(len: usize) -> Vec<u8> {
    (0..len).map(|i| (i * 7 + 3) as u8).collect()
}

#[test]
fn small_read_is_one_chunk() {
    assert_eq!(plan_read(BASE, 56), Ok(vec![Chunk { addr: BASE, size: 56 }]));
    assert_eq!(plan_read(BASE, 0), Ok(vec![]));
}

#[test]
fn large_read_splits_at_maximum_transfer() {
    let plan = plan_read(BASE, 2600).unwrap();
    assert_eq!(
        plan,
        vec![
            Chunk { addr: BASE, size: 1024 },
            Chunk { addr: BASE + 1024, size: 1024 },
            Chunk { addr: BASE + 2048, size: 552 },
        ]
    );
    assert_eq!(plan_read(BASE, 2048).unwrap().len(), 2);
}

#[test]
fn chunked_read_matches_unchunked_read() {
    let mem = memory(4096);
    let addr = BASE + 12;
    let len = 3000u32;
    let plan = plan_read(addr, len).unwrap();
    let parts: Vec<Vec<u8>> = plan
        .iter()
        .map(|c| {
            let off = (c.addr - BASE) as usize;
            mem[off..off + c.size as usize].to_vec()
        })
        .collect();
    let joined = join_reads(&plan, &parts).unwrap();
    assert_eq!(joined, mem[12..12 + len as usize].to_vec());
}

#[test]
fn chunked_write_matches_unchunked_write() {
    let data: Vec<u8> = (0..2100u32).map(|i| (i % 251) as u8).collect();
    let mut chunked = memory(4096);
    let mut whole = chunked.clone();
    for w in plan_write(BASE + 40, &data).unwrap() {
        let off = (w.addr - BASE) as usize;
        assert!(w.data.len() <= 1024);
        chunked[off..off + w.data.len()].copy_from_slice(&w.data);
    }
    whole[40..40 + data.len()].copy_from_slice(&data);
    assert_eq!(chunked, whole);
}

#[test]
fn answers_of_wrong_shape_are_refused() {
    let plan = plan_read(BASE, 8).unwrap();
    assert_eq!(join_reads(&plan, &vec![]), Err(LinkError::Marshal));
    assert_eq!(join_reads(&plan, &vec![vec![0u8; 4]]), Err(LinkError::Marshal));
    assert_eq!(join_reads(&plan, &vec![vec![1u8; 8]]), Ok(vec![1u8; 8]));
}

#[test]
fn misaligned_or_out_of_range_transfers_are_refused() {
    assert_eq!(plan_read(BASE + 2, 8), Err(LinkError::Alignment));
    assert_eq!(plan_read(BASE, 6), Err(LinkError::Alignment));
    assert_eq!(plan_read(0xffff_fff8, 16), Err(LinkError::OutOfRange));
    assert_eq!(check_transfer(0xffff_fff8, 8), Ok(()));
    assert_eq!(plan_write(BASE + 1, &[0u8; 4]), Err(LinkError::Alignment));
}

#[test]
fn element_ranges() {
    assert_eq!(element_range(BASE, 950, 50, 32), Ok((BASE + 950 * 32, 1600)));
    assert_eq!(element_range(0xffff_0000, 0x1000, 1, 32), Err(LinkError::OutOfRange));
    assert_eq!(element_range(BASE, 0, 0x1000_0000, 32), Err(LinkError::OutOfRange));
}

#[test]
fn config_written_then_read_back_is_identical() {
    let cfg = ServoConfig { position_gain: 3.25f32.to_bits(), vel_pllki: 0.5f32.to_bits(), ..ServoConfig::default() };
    let addr = BASE + 0x100;
    let mut mem = memory(1024);
    for w in plan_write(addr, &cfg.to_bytes()).unwrap() {
        let off = (w.addr - BASE) as usize;
        mem[off..off + w.data.len()].copy_from_slice(&w.data);
    }
    let plan = plan_read(addr, 56).unwrap();
    let parts: Vec<Vec<u8>> = plan
        .iter()
        .map(|c| {
            let off = (c.addr - BASE) as usize;
            mem[off..off + c.size as usize].to_vec()
        })
        .collect();
    let bytes = join_reads(&plan, &parts).unwrap();
    assert_eq!(bytes, cfg.to_bytes());
    assert_eq!(ServoConfig::from_bytes(&bytes), Some(cfg));
}
