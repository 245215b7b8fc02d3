use tftp_engine::packet::ErrorCode;
use tftp_engine::packet::Packet;
use tftp_engine::packet::TransferMode;
use tftp_engine::session::Direction;
use tftp_engine::session::OpenReadOutcome;
use tftp_engine::session::OpenWriteOutcome;
use tftp_engine::session::PeerAddr;
use tftp_engine::session::SessionConfig;
use tftp_engine::session::SessionState;
use tftp_engine::session::TransferSession;

const PEER: PeerAddr = PeerAddr { ip: 0x0a000001, port: 50111 };
const CFG: SessionConfig = SessionConfig { timeout: 1000, max_retries: 5 };

fn read_session(data: Vec<u8>, mode: TransferMode) -> (TransferSession, Packet) {
    let (s, p) = TransferSession::establish_read(PEER, mode, OpenReadOutcome::Opened(data), &CFG, 0);
    (s.expect("session must open"), p)
}

#[test]
fn read_transfer_of_513_bytes() {
    // A 513-byte file in octet mode: Data{1, 512 bytes}, then after Ack{1}
    // Data{2, 1 byte}; Completed after Ack{2}.
    let data: Vec<u8> = (0..513).map(|i| (i % 251) as u8).collect();
    let (mut s, first) = read_session(data.clone(), TransferMode::Octet);
    assert_eq!(first, Packet::Data { block: 1, payload: data[..512].to_vec() });
    assert_eq!(s.state, SessionState::Transferring);

    let second = s.on_packet(Packet::Ack { block: 1 }, true, 10);
    assert_eq!(second, Some(Packet::Data { block: 2, payload: data[512..].to_vec() }));
    assert_eq!(s.state, SessionState::Transferring);

    let done = s.on_packet(Packet::Ack { block: 2 }, true, 20);
    assert_eq!(done, None);
    assert_eq!(s.state, SessionState::Completed);
    assert_eq!(s.timer.deadline, None);
}

#[test]
fn read_transfer_multiple_of_512_ends_with_empty_block() {
    let data = vec![5u8; 1024];
    let (mut s, first) = read_session(data, TransferMode::Octet);
    assert_eq!(first, Packet::Data { block: 1, payload: vec![5u8; 512] });
    let second = s.on_packet(Packet::Ack { block: 1 }, true, 1);
    assert_eq!(second, Some(Packet::Data { block: 2, payload: vec![5u8; 512] }));
    let third = s.on_packet(Packet::Ack { block: 2 }, true, 2);
    assert_eq!(third, Some(Packet::Data { block: 3, payload: Vec::new() }));
    let done = s.on_packet(Packet::Ack { block: 3 }, true, 3);
    assert_eq!(done, None);
    assert_eq!(s.state, SessionState::Completed);
}

#[test]
fn read_transfer_of_empty_file() {
    let (mut s, first) = read_session(Vec::new(), TransferMode::Octet);
    assert_eq!(first, Packet::Data { block: 1, payload: Vec::new() });
    assert_eq!(s.on_packet(Packet::Ack { block: 1 }, true, 1), None);
    assert_eq!(s.state, SessionState::Completed);
}

#[test]
fn duplicate_ack_is_ignored() {
    // Resending the same Ack twice never produces a second Data packet.
    let data = vec![1u8; 600];
    let (mut s, _) = read_session(data, TransferMode::Octet);
    let reply = s.on_packet(Packet::Ack { block: 1 }, true, 5);
    assert!(reply.is_some());
    let deadline = s.timer.deadline;
    let dup = s.on_packet(Packet::Ack { block: 1 }, true, 6);
    assert_eq!(dup, None);
    assert_eq!(s.timer.deadline, deadline, "a stale ack must not reset the timer");
    assert_eq!(s.expected_ack, 2);
    assert_eq!(s.state, SessionState::Transferring);
}

#[test]
fn stale_and_future_acks_are_ignored() {
    let data = vec![1u8; 600];
    let (mut s, _) = read_session(data, TransferMode::Octet);
    assert_eq!(s.on_packet(Packet::Ack { block: 0 }, true, 1), None);
    assert_eq!(s.on_packet(Packet::Ack { block: 7 }, true, 1), None);
    assert_eq!(s.expected_ack, 1);
}

#[test]
fn mail_mode_is_rejected() {
    let (s, p) =
        TransferSession::establish_read(PEER, TransferMode::Mail, OpenReadOutcome::Opened(vec![1]), &CFG, 0);
    assert!(s.is_none());
    assert_eq!(p, Packet::Error { code: ErrorCode::IllegalOperation, message: Vec::new() });
}

#[test]
fn read_open_failures_map_to_error_codes() {
    let (s, p) =
        TransferSession::establish_read(PEER, TransferMode::Octet, OpenReadOutcome::NotFound, &CFG, 0);
    assert!(s.is_none());
    assert_eq!(p, Packet::Error { code: ErrorCode::FileNotFound, message: Vec::new() });
    let (s, p) =
        TransferSession::establish_read(PEER, TransferMode::Octet, OpenReadOutcome::AccessDenied, &CFG, 0);
    assert!(s.is_none());
    assert_eq!(p, Packet::Error { code: ErrorCode::AccessViolation, message: Vec::new() });
}

#[test]
fn write_transfer_accepts_blocks_in_order() {
    let (s, first) =
        TransferSession::establish_write(PEER, TransferMode::Octet, OpenWriteOutcome::Opened, &CFG, 0);
    let mut s = s.expect("session must open");
    assert_eq!(first, Packet::Ack { block: 0 });
    assert_eq!(s.direction, Direction::Write);

    let full = vec![9u8; 512];
    let r = s.on_packet(Packet::Data { block: 1, payload: full.clone() }, true, 1);
    assert_eq!(r, Some(Packet::Ack { block: 1 }));
    assert_eq!(s.state, SessionState::Transferring);

    let r = s.on_packet(Packet::Data { block: 2, payload: vec![8u8, 7] }, true, 2);
    assert_eq!(r, Some(Packet::Ack { block: 2 }));
    assert_eq!(s.state, SessionState::Completed);

    let mut expected = full;
    expected.extend_from_slice(&[8, 7]);
    assert_eq!(s.received, expected);
}

#[test]
fn write_duplicate_data_not_acked_twice() {
    let (s, _) =
        TransferSession::establish_write(PEER, TransferMode::Octet, OpenWriteOutcome::Opened, &CFG, 0);
    let mut s = s.unwrap();
    let full = vec![3u8; 512];
    assert!(s.on_packet(Packet::Data { block: 1, payload: full.clone() }, true, 1).is_some());
    // The peer resends block 1: ignored, not written again, not acked again.
    assert_eq!(s.on_packet(Packet::Data { block: 1, payload: full.clone() }, true, 2), None);
    assert_eq!(s.received.len(), 512);
    assert_eq!(s.expected_block, 2);
}

#[test]
fn write_disk_full_fails_the_session() {
    let (s, _) =
        TransferSession::establish_write(PEER, TransferMode::Octet, OpenWriteOutcome::Opened, &CFG, 0);
    let mut s = s.unwrap();
    let r = s.on_packet(Packet::Data { block: 1, payload: vec![1u8; 512] }, false, 1);
    assert_eq!(r, Some(Packet::Error { code: ErrorCode::DiskFull, message: Vec::new() }));
    assert_eq!(s.state, SessionState::Failed);
}

#[test]
fn write_open_failures_map_to_error_codes() {
    for (outcome, code) in [
        (OpenWriteOutcome::AlreadyExists, ErrorCode::FileAlreadyExists),
        (OpenWriteOutcome::AccessDenied, ErrorCode::AccessViolation),
        (OpenWriteOutcome::Full, ErrorCode::DiskFull),
    ] {
        let (s, p) = TransferSession::establish_write(PEER, TransferMode::Octet, outcome, &CFG, 0);
        assert!(s.is_none());
        assert_eq!(p, Packet::Error { code, message: Vec::new() });
    }
}

#[test]
fn peer_error_fails_silently() {
    let data = vec![1u8; 600];
    let (mut s, _) = read_session(data, TransferMode::Octet);
    let r = s.on_packet(
        Packet::Error { code: ErrorCode::NotDefined, message: b"abort".to_vec() },
        true,
        1,
    );
    assert_eq!(r, None);
    assert_eq!(s.state, SessionState::Failed);
    assert_eq!(s.timer.deadline, None);
}

#[test]
fn wrong_direction_traffic_is_illegal() {
    let data = vec![1u8; 10];
    let (mut s, _) = read_session(data, TransferMode::Octet);
    let r = s.on_packet(Packet::Data { block: 1, payload: vec![1] }, true, 1);
    assert_eq!(r, Some(Packet::Error { code: ErrorCode::IllegalOperation, message: Vec::new() }));
    assert_eq!(s.state, SessionState::Transferring);

    let (sw, _) =
        TransferSession::establish_write(PEER, TransferMode::Octet, OpenWriteOutcome::Opened, &CFG, 0);
    let mut sw = sw.unwrap();
    let r = sw.on_packet(Packet::Ack { block: 0 }, true, 1);
    assert_eq!(r, Some(Packet::Error { code: ErrorCode::IllegalOperation, message: Vec::new() }));
    assert_eq!(sw.state, SessionState::Transferring);
}

#[test]
fn second_request_on_live_session_is_illegal() {
    let data = vec![1u8; 10];
    let (mut s, _) = read_session(data, TransferMode::Octet);
    let r = s.on_packet(
        Packet::ReadRequest { filename: b"f".to_vec(), mode: TransferMode::Octet },
        true,
        1,
    );
    assert_eq!(r, Some(Packet::Error { code: ErrorCode::IllegalOperation, message: Vec::new() }));
    assert_eq!(s.state, SessionState::Transferring);
}

#[test]
fn timer_resends_verbatim_then_gives_up() {
    let cfg = SessionConfig { timeout: 100, max_retries: 2 };
    let data = vec![4u8; 20];
    let (s, first) = TransferSession::establish_read(
        PEER,
        TransferMode::Octet,
        OpenReadOutcome::Opened(data),
        &cfg,
        0,
    );
    let mut s = s.unwrap();
    // Before the deadline: nothing.
    assert_eq!(s.on_timeout(50), None);
    assert_eq!(s.state, SessionState::Transferring);
    // First and second expiry: the packet in flight again, verbatim.
    assert_eq!(s.on_timeout(100), Some(first.duplicate()));
    assert_eq!(s.on_timeout(200), Some(first.duplicate()));
    // Retries exhausted: Failed, and nothing is sent.
    assert_eq!(s.on_timeout(300), None);
    assert_eq!(s.state, SessionState::Failed);
    assert_eq!(s.timer.deadline, None);
}

#[test]
fn block_numbers_wrap_modulo_65536() {
    // 65535 full blocks, then the block number wraps to 0 for the final,
    // 10-byte block.
    let size = 65535 * 512 + 10;
    let (mut s, first) = read_session(vec![1u8; size], TransferMode::Octet);
    assert_eq!(first, Packet::Data { block: 1, payload: vec![1u8; 512] });
    let mut block: u16 = 1;
    for _ in 0..65534u32 {
        let r = s.on_packet(Packet::Ack { block }, true, 0).expect("the next block must go out");
        block = block.wrapping_add(1);
        match r {
            Packet::Data { block: b, payload } => {
                assert_eq!(b, block);
                assert_eq!(payload.len(), 512);
            }
            other => panic!("expected a Data packet, got {:?}", other),
        }
    }
    let r = s.on_packet(Packet::Ack { block: 65535 }, true, 0);
    assert_eq!(r, Some(Packet::Data { block: 0, payload: vec![1u8; 10] }));
    assert_eq!(s.on_packet(Packet::Ack { block: 0 }, true, 0), None);
    assert_eq!(s.state, SessionState::Completed);
}

#[test]
fn progress_resets_the_retry_count() {
    let cfg = SessionConfig { timeout: 100, max_retries: 1 };
    let data = vec![4u8; 600];
    let (s, _) = TransferSession::establish_read(
        PEER,
        TransferMode::Octet,
        OpenReadOutcome::Opened(data),
        &cfg,
        0,
    );
    let mut s = s.unwrap();
    assert!(s.on_timeout(100).is_some());
    assert_eq!(s.timer.retries, 1);
    // A valid ack arrives: the counter starts over.
    assert!(s.on_packet(Packet::Ack { block: 1 }, true, 150).is_some());
    assert_eq!(s.timer.retries, 0);
    assert!(s.on_timeout(250).is_some());
    assert_eq!(s.state, SessionState::Transferring);
}
