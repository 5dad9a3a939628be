use servo_tuner::records::OscilloscopeSamplePoint;
use servo_tuner::scope::{drain_region, DrainRegion, SampleWindow, MAX_SAMPLES};

fn pt(i: u32) -> OscilloscopeSamplePoint {
    OscilloscopeSamplePoint { pos: i, vel: 0, acc: 0, pos_setpoint: 0, vel_setpoint: 0, tor_setpoint: 0, pos_input: 0, vel_input: 0 }
}

#[test]
fn wrapped_index_drains_to_end_of_ring() {
    let r = drain_region(950, 20, 1000).unwrap();
    assert_eq!(r, DrainRegion { start: 950, count: 50, next_last: 0 });
    let next = drain_region(r.next_last, 20, 1000).unwrap();
    assert_eq!(next, DrainRegion { start: 0, count: 20, next_last: 20 });
}

#[test]
fn unwrapped_index_drains_between() {
    assert_eq!(drain_region(10, 30, 100), Some(DrainRegion { start: 10, count: 20, next_last: 30 }));
    assert_eq!(drain_region(30, 30, 100), Some(DrainRegion { start: 30, count: 0, next_last: 30 }));
}

#[test]
fn index_outside_ring_is_refused() {
    assert_eq!(drain_region(0, 100, 100), None);
    assert_eq!(drain_region(100, 5, 100), None);
    assert_eq!(drain_region(0, 0, 0), None);
}

#[test]
fn draining_yields_every_sample_once_in_order() {
    let cap = 16u32;
    let mut produced_at = vec![0u64, 5, 12, 20, 27, 27, 40, 44, 59, 60];
    produced_at.sort();
    let mut last = 0u32;
    let mut drained: Vec<u64> = Vec::new();
    let mut ring = vec![0u64; cap as usize];
    let mut produced = 0u64;
    for &p in &produced_at {
        while produced < p {
            ring[(produced % cap as u64) as usize] = produced;
            produced += 1;
        }
        let r = drain_region(last, (produced % cap as u64) as u32, cap).unwrap();
        for k in 0..r.count {
            drained.push(ring[(r.start + k) as usize]);
        }
        last = r.next_last;
    }
    let expected: Vec<u64> = (0..drained.len() as u64).collect();
    assert_eq!(drained, expected);
    assert!(drained.len() as u64 <= produced);
    assert!(drained.len() as u64 + cap as u64 > produced);
}

#[test]
fn window_keeps_most_recent_ten_thousand() {
    let mut w = SampleWindow::with_default_bound();
    for i in 0..10_050u32 {
        w.append(&[pt(i)]);
        assert!(w.len() <= MAX_SAMPLES);
    }
    assert_eq!(w.len(), 10_000);
    assert_eq!(w.samples()[0], pt(50));
    assert_eq!(w.samples()[9_999], pt(10_049));
}

#[test]
fn window_append_batch_trims_front() {
    let mut w = SampleWindow::new(4);
    w.append(&[pt(1), pt(2), pt(3)]);
    assert_eq!(w.samples(), &vec![pt(1), pt(2), pt(3)]);
    w.append(&[pt(4), pt(5)]);
    assert_eq!(w.samples(), &vec![pt(2), pt(3), pt(4), pt(5)]);
    w.append(&[pt(6), pt(7), pt(8), pt(9), pt(10)]);
    assert_eq!(w.samples(), &vec![pt(7), pt(8), pt(9), pt(10)]);
    w.append(&[]);
    assert_eq!(w.len(), 4);
    w.clear();
    assert_eq!(w.len(), 0);
}
