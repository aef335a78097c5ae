use execguard::record::{parse_exec_record, EXEC_RECORD_SIZE};

fn record() -> Vec<u8> {
    let mut b = vec![0u8; EXEC_RECORD_SIZE];
    b[0..4].copy_from_slice(&1234u32.to_le_bytes());
    b[4..8].copy_from_slice(&1000u32.to_le_bytes());
    b[8..12].copy_from_slice(&0xdeadbeefu32.to_le_bytes());
    b[12..16].copy_from_slice(&[9, 9, 9, 9]);
    b[16..24].copy_from_slice(&0x0102030405060708u64.to_le_bytes());
    b[24..28].copy_from_slice(b"bash");
    b[40..47].copy_from_slice(b"/bin/sh");
    b[296..300].copy_from_slice(&3u32.to_le_bytes());
    b
}

#[test]
fn parses_kernel_record() {
    let e = parse_exec_record(&record()).unwrap();
    assert_eq!(e.pid, 1234);
    assert_eq!(e.uid, 1000);
    assert_eq!(e.gid, 0xdeadbeef);
    assert_eq!(e.timestamp_ns, 0x0102030405060708);
    assert_eq!(e.comm.len(), 16);
    assert_eq!(&e.comm[..5], b"bash\0");
    assert_eq!(e.filename.len(), 256);
    assert_eq!(&e.filename[..8], b"/bin/sh\0");
    assert_eq!(e.argc, 3);
    assert_eq!(e.risk_score, 0);
}

#[test]
fn parse_ignores_trailing_bytes() {
    let mut b = record();
    b.extend_from_slice(&[1, 2, 3]);
    assert_eq!(parse_exec_record(&b).unwrap().pid, 1234);
}

#[test]
fn short_record_is_rejected() {
    let b = record();
    assert!(parse_exec_record(&b[..EXEC_RECORD_SIZE - 1]).is_none());
    assert!(parse_exec_record(&[]).is_none());
}

#[test]
fn record_of_max_values() {
    let b = vec![0xffu8; EXEC_RECORD_SIZE];
    let e = parse_exec_record(&b).unwrap();
    assert_eq!(e.pid, u32::MAX);
    assert_eq!(e.timestamp_ns, u64::MAX);
    assert_eq!(e.argc, u32::MAX);
}
