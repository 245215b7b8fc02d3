use tftp_engine::codec::decode;
use tftp_engine::codec::encode;
use tftp_engine::packet::DecodeError;
use tftp_engine::packet::ErrorCode;
use tftp_engine::packet::Opcode;
use tftp_engine::packet::Packet;
use tftp_engine::packet::TransferMode;

fn rt(p: Packet) {
    let bytes = encode(&p);
    let back = decode(&bytes).expect("an encoded packet must decode");
    assert_eq!(back, p);
}

#[test]
fn round_trip_read_request() {
    rt(Packet::ReadRequest { filename: b"hello.txt".to_vec(), mode: TransferMode::Octet });
    rt(Packet::ReadRequest { filename: b"a".to_vec(), mode: TransferMode::Netascii });
    rt(Packet::ReadRequest { filename: Vec::new(), mode: TransferMode::Mail });
}

#[test]
fn round_trip_write_request() {
    rt(Packet::WriteRequest { filename: b"out.bin".to_vec(), mode: TransferMode::Octet });
    rt(Packet::WriteRequest { filename: b"notes".to_vec(), mode: TransferMode::Netascii });
}

#[test]
fn round_trip_data() {
    rt(Packet::Data { block: 1, payload: vec![7u8; 512] });
    rt(Packet::Data { block: 65535, payload: Vec::new() });
    rt(Packet::Data { block: 300, payload: vec![0u8, 1, 2, 3] });
}

#[test]
fn round_trip_ack() {
    rt(Packet::Ack { block: 0 });
    rt(Packet::Ack { block: 65535 });
}

#[test]
fn round_trip_error() {
    rt(Packet::Error { code: ErrorCode::FileNotFound, message: b"no such file".to_vec() });
    rt(Packet::Error { code: ErrorCode::NotDefined, message: Vec::new() });
    rt(Packet::Error { code: ErrorCode::NoSuchUser, message: b"u".to_vec() });
}

#[test]
fn encode_exact_bytes() {
    assert_eq!(encode(&Packet::Data { block: 1, payload: vec![7u8] }), vec![0, 3, 0, 1, 7]);
    assert_eq!(encode(&Packet::Ack { block: 770 }), vec![0, 4, 3, 2]);
    assert_eq!(
        encode(&Packet::Error { code: ErrorCode::FileAlreadyExists, message: b"x".to_vec() }),
        vec![0, 5, 0, 6, b'x', 0]
    );
    assert_eq!(
        encode(&Packet::ReadRequest { filename: b"f".to_vec(), mode: TransferMode::Octet }),
        vec![0, 1, b'f', 0, b'o', b'c', b't', b'e', b't', 0]
    );
}

#[test]
fn decode_request_bytes() {
    let mut b = vec![0u8, 2];
    b.extend_from_slice(b"file.txt");
    b.push(0);
    b.extend_from_slice(b"netascii");
    b.push(0);
    let p = decode(&b).unwrap();
    assert_eq!(
        p,
        Packet::WriteRequest { filename: b"file.txt".to_vec(), mode: TransferMode::Netascii }
    );
}

#[test]
fn decode_mode_is_case_insensitive() {
    let mut b = vec![0u8, 1];
    b.extend_from_slice(b"f");
    b.push(0);
    b.extend_from_slice(b"OcTeT");
    b.push(0);
    let p = decode(&b).unwrap();
    assert_eq!(p, Packet::ReadRequest { filename: b"f".to_vec(), mode: TransferMode::Octet });
}

#[test]
fn decode_unknown_opcode() {
    assert_eq!(decode(&vec![0u8, 9, 1, 2]), Err(DecodeError::UnknownOpcode));
    assert_eq!(decode(&vec![0u8, 0]), Err(DecodeError::UnknownOpcode));
    assert_eq!(decode(&vec![1u8, 1, 0, 0]), Err(DecodeError::UnknownOpcode));
}

#[test]
fn decode_short_buffer_is_malformed() {
    assert_eq!(decode(&Vec::new()), Err(DecodeError::Malformed));
    assert_eq!(decode(&vec![0u8]), Err(DecodeError::Malformed));
}

#[test]
fn decode_request_missing_mode_terminator() {
    // A ReadRequest whose mode string never ends: no partial result.
    let mut b = vec![0u8, 1];
    b.extend_from_slice(b"file.txt");
    b.push(0);
    b.extend_from_slice(b"octet");
    assert_eq!(decode(&b), Err(DecodeError::Malformed));
}

#[test]
fn decode_request_missing_filename_terminator() {
    let mut b = vec![0u8, 1];
    b.extend_from_slice(b"file.txt");
    assert_eq!(decode(&b), Err(DecodeError::Malformed));
}

#[test]
fn decode_request_unknown_mode() {
    let mut b = vec![0u8, 1];
    b.extend_from_slice(b"f");
    b.push(0);
    b.extend_from_slice(b"turbo");
    b.push(0);
    assert_eq!(decode(&b), Err(DecodeError::Malformed));
}

#[test]
fn decode_ack_rejects_trailing_bytes() {
    assert_eq!(decode(&vec![0u8, 4, 0, 1, 9]), Err(DecodeError::Malformed));
    assert_eq!(decode(&vec![0u8, 4, 0]), Err(DecodeError::Malformed));
}

#[test]
fn decode_data_rejects_oversize_payload() {
    let mut b = vec![0u8, 3, 0, 1];
    b.extend_from_slice(&[9u8; 513]);
    assert_eq!(decode(&b), Err(DecodeError::Malformed));
    b.truncate(4 + 512);
    assert!(decode(&b).is_ok());
}

#[test]
fn decode_error_code_out_of_range() {
    assert_eq!(decode(&vec![0u8, 5, 0, 8, 0]), Err(DecodeError::Malformed));
}

#[test]
fn decode_error_packet() {
    let p = decode(&vec![0u8, 5, 0, 5, b'b', b'a', b'd', 0]).unwrap();
    assert_eq!(p, Packet::Error { code: ErrorCode::UnknownTid, message: b"bad".to_vec() });
}

#[test]
fn error_code_wire_values() {
    let codes = [
        (ErrorCode::NotDefined, 0u16),
        (ErrorCode::FileNotFound, 1),
        (ErrorCode::AccessViolation, 2),
        (ErrorCode::DiskFull, 3),
        (ErrorCode::IllegalOperation, 4),
        (ErrorCode::UnknownTid, 5),
        (ErrorCode::FileAlreadyExists, 6),
        (ErrorCode::NoSuchUser, 7),
    ];
    for (c, v) in codes {
        assert_eq!(c.to_u16(), v);
        assert_eq!(ErrorCode::from_u16(v), Some(c));
    }
    assert_eq!(ErrorCode::from_u16(8), None);
}

#[test]
fn opcode_wire_values() {
    assert_eq!(Opcode::from_u16(3), Some(Opcode::Data));
    assert_eq!(Opcode::from_u16(6), None);
    assert_eq!(Opcode::Ack.to_u16(), 4);
    assert_eq!(Opcode::ReadRequest.name(), "Read Request");
    assert_eq!(Opcode::Error.name(), "Error");
}

#[test]
fn new_outgoing_threads_every_field() {
    let d = Packet::new_outgoing(Opcode::Data, None, Some(9), Some(vec![1u8, 2]), Vec::new());
    assert_eq!(d, Packet::Data { block: 9, payload: vec![1u8, 2] });
    let a = Packet::new_outgoing(Opcode::Ack, None, Some(4), None, Vec::new());
    assert_eq!(a, Packet::Ack { block: 4 });
    let e = Packet::new_outgoing(
        Opcode::Error,
        Some(ErrorCode::DiskFull),
        None,
        None,
        b"full".to_vec(),
    );
    assert_eq!(e, Packet::Error { code: ErrorCode::DiskFull, message: b"full".to_vec() });
}
