//! Packet values of the wire protocol: the opcode, the transfer mode, the
//! error code, and the tagged `Packet` union itself.

use vstd::prelude::*;

verus! {

/// The five opcodes of the base protocol. Unknown wire values are a decode
/// error, never a variant.
#[derive(Clone, Copy, PartialEq, Eq, Structural, Debug)]
pub enum Opcode {
    ReadRequest,
    WriteRequest,
    Data,
    Ack,
    Error,
}

impl Opcode {
    /// The wire value of this opcode (big-endian u16 on the wire).
    pub open spec fn spec_to_u16(self) -> u16 {
        match self {
            Opcode::ReadRequest => 1,
            Opcode::WriteRequest => 2,
            Opcode::Data => 3,
            Opcode::Ack => 4,
            Opcode::Error => 5,
        }
    }

    /// The opcode of a wire value, if it is one of the five assigned values.
    pub open spec fn spec_from_u16(v: u16) -> Option<Opcode> {
        if v == 1 {
            Some(Opcode::ReadRequest)
        } else if v == 2 {
            Some(Opcode::WriteRequest)
        } else if v == 3 {
            Some(Opcode::Data)
        } else if v == 4 {
            Some(Opcode::Ack)
        } else if v == 5 {
            Some(Opcode::Error)
        } else {
            None
        }
    }

    pub fn to_u16(self) -> (r: u16)
        ensures
            r == self.spec_to_u16(),
    {
        match self {
            Opcode::ReadRequest => 1,
            Opcode::WriteRequest => 2,
            Opcode::Data => 3,
            Opcode::Ack => 4,
            Opcode::Error => 5,
        }
    }

    pub fn from_u16(v: u16) -> (r: Option<Opcode>)
        ensures
            r == Opcode::spec_from_u16(v),
    {
        match v {
            1 => Some(Opcode::ReadRequest),
            2 => Some(Opcode::WriteRequest),
            3 => Some(Opcode::Data),
            4 => Some(Opcode::Ack),
            5 => Some(Opcode::Error),
            _ => None,
        }
    }

    /// A human-readable name, for presentation by callers.
    pub fn name(self) -> (r: &'static str)
        ensures
            self == Opcode::ReadRequest ==> r@ == "Read Request"@,
            self == Opcode::WriteRequest ==> r@ == "Write Request"@,
            self == Opcode::Data ==> r@ == "Data"@,
            self == Opcode::Ack ==> r@ == "Acknowledge"@,
            self == Opcode::Error ==> r@ == "Error"@,
    {
        match self {
            Opcode::ReadRequest => "Read Request",
            Opcode::WriteRequest => "Write Request",
            Opcode::Data => "Data",
            Opcode::Ack => "Acknowledge",
            Opcode::Error => "Error",
        }
    }
}

/// The transfer mode named by a request. Mail parses but is rejected for
/// execution with `IllegalOperation`.
#[derive(Clone, Copy, PartialEq, Eq, Structural, Debug)]
pub enum TransferMode {
    Netascii,
    Octet,
    Mail,
}

/// The eight assigned error codes. Unassigned wire values are a decode
/// error, never a variant.
#[derive(Clone, Copy, PartialEq, Eq, Structural, Debug)]
pub enum ErrorCode {
    NotDefined,
    FileNotFound,
    AccessViolation,
    DiskFull,
    IllegalOperation,
    UnknownTid,
    FileAlreadyExists,
    NoSuchUser,
}

impl ErrorCode {
    pub open spec fn spec_to_u16(self) -> u16 {
        match self {
            ErrorCode::NotDefined => 0,
            ErrorCode::FileNotFound => 1,
            ErrorCode::AccessViolation => 2,
            ErrorCode::DiskFull => 3,
            ErrorCode::IllegalOperation => 4,
            ErrorCode::UnknownTid => 5,
            ErrorCode::FileAlreadyExists => 6,
            ErrorCode::NoSuchUser => 7,
        }
    }

    pub open spec fn spec_from_u16(v: u16) -> Option<ErrorCode> {
        if v == 0 {
            Some(ErrorCode::NotDefined)
        } else if v == 1 {
            Some(ErrorCode::FileNotFound)
        } else if v == 2 {
            Some(ErrorCode::AccessViolation)
        } else if v == 3 {
            Some(ErrorCode::DiskFull)
        } else if v == 4 {
            Some(ErrorCode::IllegalOperation)
        } else if v == 5 {
            Some(ErrorCode::UnknownTid)
        } else if v == 6 {
            Some(ErrorCode::FileAlreadyExists)
        } else if v == 7 {
            Some(ErrorCode::NoSuchUser)
        } else {
            None
        }
    }

    pub fn to_u16(self) -> (r: u16)
        ensures
            r == self.spec_to_u16(),
    {
        match self {
            ErrorCode::NotDefined => 0,
            ErrorCode::FileNotFound => 1,
            ErrorCode::AccessViolation => 2,
            ErrorCode::DiskFull => 3,
            ErrorCode::IllegalOperation => 4,
            ErrorCode::UnknownTid => 5,
            ErrorCode::FileAlreadyExists => 6,
            ErrorCode::NoSuchUser => 7,
        }
    }

    pub fn from_u16(v: u16) -> (r: Option<ErrorCode>)
        ensures
            r == ErrorCode::spec_from_u16(v),
    {
        match v {
            0 => Some(ErrorCode::NotDefined),
            1 => Some(ErrorCode::FileNotFound),
            2 => Some(ErrorCode::AccessViolation),
            3 => Some(ErrorCode::DiskFull),
            4 => Some(ErrorCode::IllegalOperation),
            5 => Some(ErrorCode::UnknownTid),
            6 => Some(ErrorCode::FileAlreadyExists),
            7 => Some(ErrorCode::NoSuchUser),
            _ => None,
        }
    }
}

/// Why a byte string is not a packet.
#[derive(Clone, Copy, PartialEq, Eq, Structural, Debug)]
pub enum DecodeError {
    /// The first two bytes are not one of the five assigned opcodes.
    UnknownOpcode,
    /// The opcode is known but the body does not fit its shape.
    Malformed,
}

/// A packet value: the tagged union over the five variants, each carrying
/// only its relevant fields.
#[derive(PartialEq, Eq, Debug)]
pub enum Packet {
    ReadRequest { filename: Vec<u8>, mode: TransferMode },
    WriteRequest { filename: Vec<u8>, mode: TransferMode },
    Data { block: u16, payload: Vec<u8> },
    Ack { block: u16 },
    Error { code: ErrorCode, message: Vec<u8> },
}

/// The mathematical value of a packet, with byte strings as sequences.
pub enum PacketV {
    ReadRequest { filename: Seq<u8>, mode: TransferMode },
    WriteRequest { filename: Seq<u8>, mode: TransferMode },
    Data { block: u16, payload: Seq<u8> },
    Ack { block: u16 },
    Error { code: ErrorCode, message: Seq<u8> },
}

impl View for Packet {
    type V = PacketV;

    open spec fn view(&self) -> PacketV {
        match self {
            Packet::ReadRequest { filename, mode } => PacketV::ReadRequest {
                filename: filename@,
                mode: *mode,
            },
            Packet::WriteRequest { filename, mode } => PacketV::WriteRequest {
                filename: filename@,
                mode: *mode,
            },
            Packet::Data { block, payload } => PacketV::Data {
                block: *block,
                payload: payload@,
            },
            Packet::Ack { block } => PacketV::Ack { block: *block },
            Packet::Error { code, message } => PacketV::Error {
                code: *code,
                message: message@,
            },
        }
    }
}

impl PacketV {
    /// A constructible packet value: byte strings that the wire format can
    /// frame (no NUL inside a terminated string) and a payload of at most
    /// 512 bytes.
    pub open spec fn wf(self) -> bool {
        match self {
            PacketV::ReadRequest { filename, .. } => !filename.contains(0u8),
            PacketV::WriteRequest { filename, .. } => !filename.contains(0u8),
            PacketV::Data { payload, .. } => payload.len() <= 512,
            PacketV::Ack { .. } => true,
            PacketV::Error { message, .. } => !message.contains(0u8),
        }
    }
}

impl Packet {
    pub open spec fn wf(self) -> bool {
        self@.wf()
    }

    /// A fresh packet with the same value, usable when the original must be
    /// kept for verbatim retransmission.
    pub fn duplicate(&self) -> (r: Packet)
        ensures
            r@ == self@,
    {
        match self {
            Packet::ReadRequest { filename, mode } => Packet::ReadRequest {
                filename: copy_bytes(filename),
                mode: *mode,
            },
            Packet::WriteRequest { filename, mode } => Packet::WriteRequest {
                filename: copy_bytes(filename),
                mode: *mode,
            },
            Packet::Data { block, payload } => Packet::Data {
                block: *block,
                payload: copy_bytes(payload),
            },
            Packet::Ack { block } => Packet::Ack { block: *block },
            Packet::Error { code, message } => Packet::Error {
                code: *code,
                message: copy_bytes(message),
            },
        }
    }

    /// Builds an outbound packet from its parsed fields. The server only
    /// originates Data, Ack and Error packets; every field of the chosen
    /// variant is threaded into the returned value.
    pub fn new_outgoing(
        packet_type: Opcode,
        error_type: Option<ErrorCode>,
        block: Option<u16>,
        data: Option<Vec<u8>>,
        message: Vec<u8>,
    ) -> (r: Packet)
        requires
            packet_type == Opcode::Data || packet_type == Opcode::Ack || packet_type
                == Opcode::Error,
            packet_type == Opcode::Data ==> block is Some && data is Some
                && data.unwrap()@.len() <= 512,
            packet_type == Opcode::Ack ==> block is Some,
            packet_type == Opcode::Error ==> error_type is Some && !message@.contains(0u8),
        ensures
            packet_type == Opcode::Data ==> r@ == (PacketV::Data {
                block: block.unwrap(),
                payload: data.unwrap()@,
            }),
            packet_type == Opcode::Ack ==> r@ == (PacketV::Ack { block: block.unwrap() }),
            packet_type == Opcode::Error ==> r@ == (PacketV::Error {
                code: error_type.unwrap(),
                message: message@,
            }),
            r.wf(),
    {
        match packet_type {
            Opcode::Data => Packet::Data { block: block.unwrap(), payload: data.unwrap() },
            Opcode::Ack => Packet::Ack { block: block.unwrap() },
            _ => Packet::Error { code: error_type.unwrap(), message },
        }
    }
}

/// An `Error` packet value with the given code and an empty message.
pub open spec fn error_v(code: ErrorCode) -> PacketV {
    PacketV::Error { code, message: Seq::empty() }
}

/// An `Error` packet with the given code and an empty message.
pub fn err_packet(code: ErrorCode) -> (r: Packet)
    ensures
        r@ == error_v(code),
        r.wf(),
{
    let message: Vec<u8> = Vec::new();
    proof {
        assert(!message@.contains(0u8));
    }
    Packet::Error { code, message }
}

/// Appends the bytes of `src` to `dst`.
pub fn append_bytes(dst: &mut Vec<u8>, src: &Vec<u8>)
    ensures
        final(dst)@ == old(dst)@ + src@,
{
    let mut i: usize = 0;
    while i < src.len()
        invariant
            i <= src@.len(),
            dst@ == old(dst)@ + src@.subrange(0, i as int),
        decreases src@.len() - i,
    {
        dst.push(src[i]);
        proof {
            assert(dst@ =~= old(dst)@ + src@.subrange(0, i + 1 as int));
        }
        i = i + 1;
    }
    proof {
        assert(dst@ =~= old(dst)@ + src@);
    }
}

/// A fresh vector holding the same bytes.
pub fn copy_bytes(v: &Vec<u8>) -> (r: Vec<u8>)
    ensures
        r@ == v@,
{
    copy_range(v, 0, v.len())
}

/// A fresh vector holding `v[start..end]`.
pub fn copy_range(v: &Vec<u8>, start: usize, end: usize) -> (r: Vec<u8>)
    requires
        start <= end <= v@.len(),
    ensures
        r@ == v@.subrange(start as int, end as int),
{
    let mut out: Vec<u8> = Vec::new();
    let mut i: usize = start;
    while i < end
        invariant
            start <= i <= end <= v@.len(),
            out@ == v@.subrange(start as int, i as int),
        decreases end - i,
    {
        out.push(v[i]);
        proof {
            assert(out@ =~= v@.subrange(start as int, i + 1 as int));
        }
        i = i + 1;
    }
    proof {
        assert(out@ =~= v@.subrange(start as int, end as int));
    }
    out
}

} // verus!
