use servo_tuner::error::LinkError;
use servo_tuner::probe::{
    check_status, command_frame, current_mode_command, debug_resetsys_command,
    enter_debug_swd_command, find_descriptor, is_read_buffer_ok, leave_mode_command,
    read_mem16_command, read_mem32_command, response_buffer_len, swd_freq_command,
    take_response, write_mem32_command, STLinkVersion, StlinkDebugApiv2SwdFreq,
};

#[test]
fn frames_are_padded_to_sixteen_bytes() {
    let f = command_frame(&[0xf2, 0x32]);
    assert_eq!(f.len(), 16);
    assert_eq!(&f[..2], &[0xf2, 0x32]);
    assert!(f[2..].iter().all(|&b| b == 0));
    assert_eq!(debug_resetsys_command(), f);
    assert_eq!(current_mode_command()[0], 0xf5);
    assert_eq!(&enter_debug_swd_command()[..3], &[0xf2, 0x30, 0xa3]);
}

#[test]
fn memory_read_frame_encodes_address_and_size() {
    let f = read_mem32_command(0x2000_0010, 0x40).unwrap();
    assert_eq!(&f[..10], &[0xf2, 0x07, 0x10, 0x00, 0x00, 0x20, 0x40, 0x00, 0x00, 0x00]);
    assert!(f[10..].iter().all(|&b| b == 0));
    let w = write_mem32_command(0x2000_0010, 1024).unwrap();
    assert_eq!(&w[..10], &[0xf2, 0x08, 0x10, 0x00, 0x00, 0x20, 0x00, 0x04, 0x00, 0x00]);
}

#[test]
fn memory_frames_refuse_bad_requests() {
    assert_eq!(read_mem32_command(0x2000_0002, 4), Err(LinkError::Alignment));
    assert_eq!(read_mem32_command(0x2000_0000, 6), Err(LinkError::Alignment));
    assert_eq!(read_mem32_command(0x2000_0000, 1028), Err(LinkError::TooLarge));
    assert_eq!(write_mem32_command(0x2000_0001, 4), Err(LinkError::Alignment));
    assert!(read_mem16_command(0x2000_0002, 6).is_ok());
    assert_eq!(read_mem16_command(0x2000_0001, 6), Err(LinkError::Alignment));
}

#[test]
fn known_probes_are_found() {
    let d = find_descriptor(0x0483, 0x374b).unwrap();
    assert_eq!(d.version, STLinkVersion::V2_1);
    assert_eq!((d.out_pipe, d.in_pipe), (0x01, 0x81));
    let d = find_descriptor(0x0483, 0x3748).unwrap();
    assert_eq!((d.version, d.out_pipe), (STLinkVersion::V2, 0x02));
    assert_eq!(find_descriptor(0x0483, 0x3753).unwrap().version, STLinkVersion::V3);
    assert_eq!(find_descriptor(0x1234, 0x374b), None);
}

#[test]
fn leaving_current_mode() {
    assert_eq!(&leave_mode_command(&[0x00, 0x00]).unwrap()[..2], &[0xf3, 0x07]);
    assert_eq!(&leave_mode_command(&[0x02, 0x00]).unwrap()[..2], &[0xf2, 0x21]);
    assert_eq!(&leave_mode_command(&[0x03, 0x00]).unwrap()[..2], &[0xf4, 0x01]);
    assert_eq!(leave_mode_command(&[0x01, 0x00]), Err(LinkError::Protocol));
    assert_eq!(leave_mode_command(&[0x02]), Err(LinkError::Protocol));
}

#[test]
fn clock_and_status() {
    assert_eq!(&swd_freq_command(StlinkDebugApiv2SwdFreq::Freq480000)[..3], &[0xf2, 0x43, 7]);
    assert_eq!(StlinkDebugApiv2SwdFreq::Freq25000.code(), 158);
    assert_eq!(check_status(&[0x80, 0]), Ok(()));
    assert_eq!(check_status(&[0x81]), Err(LinkError::Protocol));
    assert_eq!(check_status(&[]), Err(LinkError::Protocol));
}

#[test]
fn responses_are_exact_length() {
    assert_eq!(response_buffer_len(4), 64);
    assert_eq!(response_buffer_len(1024), 1024);
    assert_eq!(response_buffer_len(66), 68);
    assert!(is_read_buffer_ok(64));
    assert!(!is_read_buffer_ok(60));
    assert!(!is_read_buffer_ok(66));
    let rx: Vec<u8> = (0..64).collect();
    assert_eq!(take_response(&rx, 64, 8), Ok((0..8).collect::<Vec<u8>>()));
    assert_eq!(take_response(&rx, 4, 8), Err(LinkError::Transport));
    assert_eq!(take_response(&rx, 65, 8), Err(LinkError::Transport));
}
