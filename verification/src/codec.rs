//! The packet codec: stateless encode/decode between raw bytes and a tagged
//! packet value, specified against a mathematical wire format.
//!
//! `encode_spec` is the wire format itself; `decode_spec` is the parser at
//! the specification level. `encode` and `decode` are proved equal to them,
//! and `lemma_round_trip` proves that decoding inverts encoding for every
//! constructible packet value.

use vstd::prelude::*;

use crate::packet::copy_range;
use crate::packet::DecodeError;
use crate::packet::ErrorCode;
use crate::packet::Opcode;
use crate::packet::Packet;
use crate::packet::PacketV;
use crate::packet::TransferMode;

verus! {

/// The u16 read big-endian from two bytes.
pub open spec fn be16(hi: u8, lo: u8) -> u16 {
    (hi as int * 256 + lo as int) as u16
}

/// The high byte of a u16 written big-endian.
pub open spec fn be_hi(v: u16) -> u8 {
    (v as int / 256) as u8
}

/// The low byte of a u16 written big-endian.
pub open spec fn be_lo(v: u16) -> u8 {
    (v as int % 256) as u8
}

/// ASCII lower-casing of one byte, the case folding the mode match uses.
pub open spec fn lower(b: u8) -> u8 {
    if 65 <= b && b <= 90 {
        (b + 32) as u8
    } else {
        b
    }
}

/// The canonical (lower-case) spelling of a transfer mode on the wire.
pub open spec fn mode_bytes(m: TransferMode) -> Seq<u8> {
    match m {
        TransferMode::Netascii => seq![110u8, 101u8, 116u8, 97u8, 115u8, 99u8, 105u8, 105u8],
        TransferMode::Octet => seq![111u8, 99u8, 116u8, 101u8, 116u8],
        TransferMode::Mail => seq![109u8, 97u8, 105u8, 108u8],
    }
}

/// The transfer mode a mode string names, matched case-insensitively
/// against netascii, octet and mail.
pub open spec fn mode_of(m: Seq<u8>) -> Option<TransferMode> {
    if m.len() == 8 && lower(m[0]) == 110 && lower(m[1]) == 101 && lower(m[2]) == 116 && lower(
        m[3],
    ) == 97 && lower(m[4]) == 115 && lower(m[5]) == 99 && lower(m[6]) == 105 && lower(m[7])
        == 105 {
        Some(TransferMode::Netascii)
    } else if m.len() == 5 && lower(m[0]) == 111 && lower(m[1]) == 99 && lower(m[2]) == 116
        && lower(m[3]) == 101 && lower(m[4]) == 116 {
        Some(TransferMode::Octet)
    } else if m.len() == 4 && lower(m[0]) == 109 && lower(m[1]) == 97 && lower(m[2]) == 105
        && lower(m[3]) == 108 {
        Some(TransferMode::Mail)
    } else {
        None
    }
}

/// The exact byte string a packet value encodes to.
pub open spec fn encode_spec(p: PacketV) -> Seq<u8> {
    match p {
        PacketV::ReadRequest { filename, mode } => seq![0u8, 1u8] + filename + seq![0u8]
            + mode_bytes(mode) + seq![0u8],
        PacketV::WriteRequest { filename, mode } => seq![0u8, 2u8] + filename + seq![0u8]
            + mode_bytes(mode) + seq![0u8],
        PacketV::Data { block, payload } => seq![0u8, 3u8, be_hi(block), be_lo(block)] + payload,
        PacketV::Ack { block } => seq![0u8, 4u8, be_hi(block), be_lo(block)],
        PacketV::Error { code, message } => seq![
            0u8,
            5u8,
            be_hi(code.spec_to_u16()),
            be_lo(code.spec_to_u16()),
        ] + message + seq![0u8],
    }
}

/// The position of the first NUL byte at or after `from`, if any.
pub open spec fn first_nul_from(b: Seq<u8>, from: int) -> Option<int>
    decreases b.len() - from,
{
    if from >= b.len() {
        None
    } else if b[from] == 0u8 {
        Some(from)
    } else {
        first_nul_from(b, from + 1)
    }
}

/// The parser at the specification level: what `decode` returns on every
/// byte string.
pub open spec fn decode_spec(b: Seq<u8>) -> Result<PacketV, DecodeError> {
    if b.len() < 2 {
        Err(DecodeError::Malformed)
    } else {
        match Opcode::spec_from_u16(be16(b[0], b[1])) {
            None => Err(DecodeError::UnknownOpcode),
            Some(Opcode::ReadRequest) => decode_request_spec(b, true),
            Some(Opcode::WriteRequest) => decode_request_spec(b, false),
            Some(Opcode::Data) => if b.len() < 4 {
                Err(DecodeError::Malformed)
            } else if b.len() - 4 <= 512 {
                Ok(
                    PacketV::Data {
                        block: be16(b[2], b[3]),
                        payload: b.subrange(4, b.len() as int),
                    },
                )
            } else {
                Err(DecodeError::Malformed)
            },
            Some(Opcode::Ack) => if b.len() == 4 {
                Ok(PacketV::Ack { block: be16(b[2], b[3]) })
            } else {
                Err(DecodeError::Malformed)
            },
            Some(Opcode::Error) => if b.len() < 4 {
                Err(DecodeError::Malformed)
            } else {
                match ErrorCode::spec_from_u16(be16(b[2], b[3])) {
                    None => Err(DecodeError::Malformed),
                    Some(code) => match first_nul_from(b, 4) {
                        Some(k) => if k + 1 == b.len() {
                            Ok(PacketV::Error { code, message: b.subrange(4, k) })
                        } else {
                            Err(DecodeError::Malformed)
                        },
                        None => Err(DecodeError::Malformed),
                    },
                }
            },
        }
    }
}

/// The request body: a NUL-terminated filename, a NUL-terminated mode, and
/// nothing after them.
pub open spec fn decode_request_spec(b: Seq<u8>, read: bool) -> Result<PacketV, DecodeError> {
    match first_nul_from(b, 2) {
        None => Err(DecodeError::Malformed),
        Some(i) => match first_nul_from(b, i + 1) {
            None => Err(DecodeError::Malformed),
            Some(j) => if j + 1 == b.len() {
                match mode_of(b.subrange(i + 1, j)) {
                    Some(m) => if read {
                        Ok(PacketV::ReadRequest { filename: b.subrange(2, i), mode: m })
                    } else {
                        Ok(PacketV::WriteRequest { filename: b.subrange(2, i), mode: m })
                    },
                    None => Err(DecodeError::Malformed),
                }
            } else {
                Err(DecodeError::Malformed)
            },
        },
    }
}

/// The value of a decode result, byte strings as sequences.
pub open spec fn res_view(r: Result<Packet, DecodeError>) -> Result<PacketV, DecodeError> {
    match r {
        Ok(p) => Ok(p@),
        Err(e) => Err(e),
    }
}

pub proof fn lemma_first_nul_from_intro(b: Seq<u8>, from: int, i: int)
    requires
        0 <= from <= i < b.len(),
        b[i] == 0u8,
        forall|j: int| from <= j < i ==> b[j] != 0u8,
    ensures
        first_nul_from(b, from) == Some(i),
    decreases i - from,
{
    if from < i {
        lemma_first_nul_from_intro(b, from + 1, i);
    }
}

pub proof fn lemma_first_nul_from_none(b: Seq<u8>, from: int)
    requires
        0 <= from,
        forall|j: int| from <= j < b.len() ==> b[j] != 0u8,
    ensures
        first_nul_from(b, from) is None,
    decreases b.len() - from,
{
    if from < b.len() {
        lemma_first_nul_from_none(b, from + 1);
    }
}

pub proof fn lemma_first_nul_from_elim(b: Seq<u8>, from: int)
    requires
        0 <= from,
        first_nul_from(b, from) is Some,
    ensures
        ({
            let i = first_nul_from(b, from).unwrap();
            from <= i < b.len() && b[i] == 0u8 && forall|j: int| from <= j < i ==> b[j] != 0u8
        }),
    decreases b.len() - from,
{
    if from < b.len() && b[from] != 0u8 {
        lemma_first_nul_from_elim(b, from + 1);
    }
}

/// No mode spelling contains a NUL byte.
pub proof fn lemma_mode_bytes_no_nul(m: TransferMode)
    ensures
        forall|k: int| 0 <= k < mode_bytes(m).len() ==> mode_bytes(m)[k] != 0u8,
{
    match m {
        TransferMode::Netascii => {
            assert forall|k: int| 0 <= k < mode_bytes(m).len() implies mode_bytes(m)[k]
                != 0u8 by {
                assert(mode_bytes(m).len() == 8);
            }
        },
        TransferMode::Octet => {
            assert forall|k: int| 0 <= k < mode_bytes(m).len() implies mode_bytes(m)[k]
                != 0u8 by {
                assert(mode_bytes(m).len() == 5);
            }
        },
        TransferMode::Mail => {
            assert forall|k: int| 0 <= k < mode_bytes(m).len() implies mode_bytes(m)[k]
                != 0u8 by {
                assert(mode_bytes(m).len() == 4);
            }
        },
    }
}

/// The canonical spelling of each mode names that mode.
pub proof fn lemma_mode_of_canonical(m: TransferMode)
    ensures
        mode_of(mode_bytes(m)) == Some(m),
{
}

/// Round-trip: decoding inverts encoding for every constructible packet
/// value of every variant.
pub proof fn lemma_round_trip(p: PacketV)
    requires
        p.wf(),
    ensures
        decode_spec(encode_spec(p)) == Ok::<PacketV, DecodeError>(p),
{
    let b = encode_spec(p);
    match p {
        PacketV::ReadRequest { filename, mode } => {
            lemma_round_trip_request(b, filename, mode, true);
        },
        PacketV::WriteRequest { filename, mode } => {
            lemma_round_trip_request(b, filename, mode, false);
        },
        PacketV::Data { block, payload } => {
            assert(b.len() == 4 + payload.len());
            assert(be16(b[0], b[1]) == 3);
            lemma_be16_split(block);
            assert(be16(b[2], b[3]) == block);
            assert(b.subrange(4, b.len() as int) =~= payload);
        },
        PacketV::Ack { block } => {
            assert(b.len() == 4);
            assert(be16(b[0], b[1]) == 4);
            lemma_be16_split(block);
            assert(be16(b[2], b[3]) == block);
        },
        PacketV::Error { code, message } => {
            assert(b.len() == 5 + message.len());
            assert(be16(b[0], b[1]) == 5);
            lemma_be16_split(code.spec_to_u16());
            assert(be16(b[2], b[3]) == code.spec_to_u16());
            assert(ErrorCode::spec_from_u16(code.spec_to_u16()) == Some(code));
            let k = 4 + message.len() as int;
            assert(b[k] == 0u8);
            assert forall|j: int| 4 <= j < k implies b[j] != 0u8 by {
                assert(b[j] == message[j - 4]);
                if message[j - 4] == 0u8 {
                    assert(message.contains(0u8));
                }
            }
            lemma_first_nul_from_intro(b, 4, k);
            assert(b.subrange(4, k) =~= message);
        },
    }
}

proof fn lemma_round_trip_request(b: Seq<u8>, filename: Seq<u8>, mode: TransferMode, read: bool)
    requires
        !filename.contains(0u8),
        b == seq![0u8, if read { 1u8 } else { 2u8 }] + filename + seq![0u8] + mode_bytes(mode)
            + seq![0u8],
    ensures
        read ==> decode_spec(b) == Ok::<PacketV, DecodeError>(PacketV::ReadRequest { filename, mode }),
        !read ==> decode_spec(b) == Ok::<PacketV, DecodeError>(PacketV::WriteRequest { filename, mode }),
{
    let mb = mode_bytes(mode);
    assert(b.len() == 2 + filename.len() + 1 + mb.len() + 1);
    assert(be16(b[0], b[1]) == if read { 1u16 } else { 2u16 });
    let i = 2 + filename.len() as int;
    assert(b[i] == 0u8);
    assert forall|j: int| 2 <= j < i implies b[j] != 0u8 by {
        assert(b[j] == filename[j - 2]);
        if filename[j - 2] == 0u8 {
            assert(filename.contains(0u8));
        }
    }
    lemma_first_nul_from_intro(b, 2, i);
    let j = i + 1 + mb.len() as int;
    assert(b[j] == 0u8);
    lemma_mode_bytes_no_nul(mode);
    assert forall|k: int| i + 1 <= k < j implies b[k] != 0u8 by {
        assert(b[k] == mb[k - (i + 1)]);
    }
    lemma_first_nul_from_intro(b, i + 1, j);
    assert(j + 1 == b.len());
    assert(b.subrange(i + 1, j) =~= mb);
    lemma_mode_of_canonical(mode);
    assert(b.subrange(2, i) =~= filename);
}

/// Splitting a u16 into its big-endian bytes and reading them back yields
/// the same value.
pub proof fn lemma_be16_split(v: u16)
    ensures
        be16(be_hi(v), be_lo(v)) == v,
{
    assert(v as int / 256 * 256 + v as int % 256 == v as int);
}

/// Encoding is injective on constructible packet values: equal encodings
/// come from equal values.
pub proof fn lemma_encode_injective(p1: PacketV, p2: PacketV)
    requires
        p1.wf(),
        p2.wf(),
        encode_spec(p1) == encode_spec(p2),
    ensures
        p1 == p2,
{
    lemma_round_trip(p1);
    lemma_round_trip(p2);
}

/// Serialises a packet to its wire bytes. Pure and deterministic: the
/// result is exactly `encode_spec` of the packet's value.
pub fn encode(p: &Packet) -> (r: Vec<u8>)
    requires
        p.wf(),
    ensures
        r@ == encode_spec(p@),
{
    let mut out: Vec<u8> = Vec::new();
    match p {
        Packet::ReadRequest { filename, mode } => {
            out.push(0u8);
            out.push(1u8);
            push_bytes(&mut out, filename);
            out.push(0u8);
            push_mode(&mut out, *mode);
            out.push(0u8);
            proof {
                assert(out@ =~= encode_spec(p@));
            }
        },
        Packet::WriteRequest { filename, mode } => {
            out.push(0u8);
            out.push(2u8);
            push_bytes(&mut out, filename);
            out.push(0u8);
            push_mode(&mut out, *mode);
            out.push(0u8);
            proof {
                assert(out@ =~= encode_spec(p@));
            }
        },
        Packet::Data { block, payload } => {
            out.push(0u8);
            out.push(3u8);
            push_u16(&mut out, *block);
            push_bytes(&mut out, payload);
            proof {
                assert(out@ =~= encode_spec(p@));
            }
        },
        Packet::Ack { block } => {
            out.push(0u8);
            out.push(4u8);
            push_u16(&mut out, *block);
            proof {
                assert(out@ =~= encode_spec(p@));
            }
        },
        Packet::Error { code, message } => {
            out.push(0u8);
            out.push(5u8);
            push_u16(&mut out, code.to_u16());
            push_bytes(&mut out, message);
            out.push(0u8);
            proof {
                assert(out@ =~= encode_spec(p@));
            }
        },
    }
    out
}

fn push_bytes(out: &mut Vec<u8>, v: &Vec<u8>) 
    ensures
        final(out)@ == old(out)@ + v@,
{
    let mut i: usize = 0;
    while i < v.len()
        invariant
            i <= v@.len(),
            out@ == old(out)@ + v@.subrange(0, i as int),
        decreases v@.len() - i,
    {
        out.push(v[i]);
        proof {
            assert(out@ =~= old(out)@ + v@.subrange(0, i + 1 as int));
        }
        i = i + 1;
    }
    proof {
        assert(out@ =~= old(out)@ + v@);
    }
}

fn push_u16(out: &mut Vec<u8>, v: u16) 
    ensures
        final(out)@ == old(out)@ + seq![be_hi(v), be_lo(v)],
{
    out.push((v / 256) as u8);
    out.push((v % 256) as u8);
    proof {
        assert(out@ =~= old(out)@ + seq![be_hi(v), be_lo(v)]);
    }
}

fn push_mode(out: &mut Vec<u8>, m: TransferMode) 
    ensures
        final(out)@ == old(out)@ + mode_bytes(m),
{
    match m {
        TransferMode::Netascii => {
            out.push(110u8);
            out.push(101u8);
            out.push(116u8);
            out.push(97u8);
            out.push(115u8);
            out.push(99u8);
            out.push(105u8);
            out.push(105u8);
        },
        TransferMode::Octet => {
            out.push(111u8);
            out.push(99u8);
            out.push(116u8);
            out.push(101u8);
            out.push(116u8);
        },
        TransferMode::Mail => {
            out.push(109u8);
            out.push(97u8);
            out.push(105u8);
            out.push(108u8);
        },
    }
    proof {
        assert(out@ =~= old(out)@ + mode_bytes(m));
    }
}

/// Parses wire bytes into a packet, or says why they are not one: an
/// unassigned opcode is `UnknownOpcode`; a known opcode whose body does not
/// fit its shape is `Malformed`, yielding no partial result.
pub fn decode(b: &Vec<u8>) -> (r: Result<Packet, DecodeError>)
    ensures
        res_view(r) == decode_spec(b@),
        r is Ok ==> r.unwrap().wf(),
{
    if b.len() < 2 {
        return Err(DecodeError::Malformed);
    }
    let op_v: u16 = (b[0] as u16) * 256 + (b[1] as u16);
    proof {
        assert(op_v == be16(b@[0], b@[1]));
    }
    match Opcode::from_u16(op_v) {
        None => Err(DecodeError::UnknownOpcode),
        Some(Opcode::ReadRequest) => decode_request(b, true),
        Some(Opcode::WriteRequest) => decode_request(b, false),
        Some(Opcode::Data) => {
            if b.len() < 4 {
                return Err(DecodeError::Malformed);
            }
            if b.len() - 4 > 512 {
                return Err(DecodeError::Malformed);
            }
            let block: u16 = (b[2] as u16) * 256 + (b[3] as u16);
            let payload = copy_range(b, 4, b.len());
            Ok(Packet::Data { block, payload })
        },
        Some(Opcode::Ack) => {
            if b.len() != 4 {
                return Err(DecodeError::Malformed);
            }
            let block: u16 = (b[2] as u16) * 256 + (b[3] as u16);
            Ok(Packet::Ack { block })
        },
        Some(Opcode::Error) => {
            if b.len() < 4 {
                return Err(DecodeError::Malformed);
            }
            let code_v: u16 = (b[2] as u16) * 256 + (b[3] as u16);
            match ErrorCode::from_u16(code_v) {
                None => Err(DecodeError::Malformed),
                Some(code) => match find_nul_from(b, 4) {
                    None => Err(DecodeError::Malformed),
                    Some(k) => {
                        if k + 1 != b.len() {
                            return Err(DecodeError::Malformed);
                        }
                        let message = copy_range(b, 4, k);
                        proof {
                            lemma_first_nul_from_elim(b@, 4);
                            if message@.contains(0u8) {
                                let idx = choose|idx: int|
                                    0 <= idx < message@.len() && message@[idx] == 0u8;
                                assert(b@[4 + idx] == 0u8);
                            }
                        }
                        Ok(Packet::Error { code, message })
                    },
                },
            }
        },
    }
}

fn decode_request(b: &Vec<u8>, read: bool) -> (r: Result<Packet, DecodeError>)
    requires
        b@.len() >= 2,
    ensures
        res_view(r) == decode_request_spec(b@, read),
        r is Ok ==> r.unwrap().wf(),
{
    let n = b.len();
    match find_nul_from(b, 2) {
        None => Err(DecodeError::Malformed),
        Some(i) => match find_nul_from(b, i + 1) {
            None => Err(DecodeError::Malformed),
            Some(j) => {
                if j + 1 != b.len() {
                    return Err(DecodeError::Malformed);
                }
                let mode_vec = copy_range(b, i + 1, j);
                match parse_mode(&mode_vec) {
                    None => Err(DecodeError::Malformed),
                    Some(m) => {
                        let filename = copy_range(b, 2, i);
                        proof {
                            lemma_first_nul_from_elim(b@, 2);
                            if filename@.contains(0u8) {
                                let idx = choose|idx: int|
                                    0 <= idx < filename@.len() && filename@[idx] == 0u8;
                                assert(b@[2 + idx] == 0u8);
                            }
                        }
                        if read {
                            Ok(Packet::ReadRequest { filename, mode: m })
                        } else {
                            Ok(Packet::WriteRequest { filename, mode: m })
                        }
                    },
                }
            },
        },
    }
}

/// The first NUL byte at or after `from`, by a linear scan.
fn find_nul_from(b: &Vec<u8>, from: usize) -> (r: Option<usize>)
    requires
        from <= b@.len(),
    ensures
        match r {
            Some(i) => from <= i < b@.len() && first_nul_from(b@, from as int) == Some(i as int),
            None => first_nul_from(b@, from as int) is None,
        },
{
    let mut i: usize = from;
    while i < b.len()
        invariant
            from <= i <= b@.len(),
            forall|j: int| from <= j < i ==> b@[j] != 0u8,
        decreases b@.len() - i,
    {
        if b[i] == 0 {
            proof {
                lemma_first_nul_from_intro(b@, from as int, i as int);
            }
            return Some(i);
        }
        i = i + 1;
    }
    proof {
        lemma_first_nul_from_none(b@, from as int);
    }
    None
}

fn lower_byte(x: u8) -> (r: u8)
    ensures
        r == lower(x),
{
    if 65 <= x && x <= 90 {
        x + 32
    } else {
        x
    }
}

/// The transfer mode a parsed mode string names, if any.
fn parse_mode(m: &Vec<u8>) -> (r: Option<TransferMode>)
    ensures
        r == mode_of(m@),
{
    if m.len() == 8 {
        if lower_byte(m[0]) == 110 && lower_byte(m[1]) == 101 && lower_byte(m[2]) == 116
            && lower_byte(m[3]) == 97 && lower_byte(m[4]) == 115 && lower_byte(m[5]) == 99
            && lower_byte(m[6]) == 105 && lower_byte(m[7]) == 105 {
            Some(TransferMode::Netascii)
        } else {
            None
        }
    } else if m.len() == 5 {
        if lower_byte(m[0]) == 111 && lower_byte(m[1]) == 99 && lower_byte(m[2]) == 116
            && lower_byte(m[3]) == 101 && lower_byte(m[4]) == 116 {
            Some(TransferMode::Octet)
        } else {
            None
        }
    } else if m.len() == 4 {
        if lower_byte(m[0]) == 109 && lower_byte(m[1]) == 97 && lower_byte(m[2]) == 105
            && lower_byte(m[3]) == 108 {
            Some(TransferMode::Mail)
        } else {
            None
        }
    } else {
        None
    }
}

} // verus!
