//! The MSNP2P transport packet carried in a data frame: an eight-byte header
//! (header length, operation code, payload length, sequence number), the
//! header's TLV bytes, then the payload, which is kept as it came.

use crate::bytes::{
    be16_bytes, be32_bytes, be_u16, be_u32, lemma_be16_of_bytes, lemma_be16_round_trip,
    lemma_be32_of_bytes, lemma_be32_round_trip, read_u16_be, read_u32_be, write_u16_be,
    write_u32_be,
};
use vstd::prelude::*;
use vstd::slice::slice_to_vec;

verus! {

/// Size of the fixed part of the transport header.
pub const FIXED_HEADER_LEN: u8 = 8;

/// Largest operation code: the SYN (1) and RAK (2) flags together.
pub const MAX_OP_CODE: u8 = 3;

/// Why a payload decodes as no command: the transport packet's decoding
/// errors, and a nonce of the wrong length.
#[derive(Clone, Copy, Debug, PartialEq, Eq, Structural)]
pub enum DecodeError {
    /// Fewer bytes than the fixed header needs.
    TruncatedHeader,
    /// The header declares a length shorter than its fixed part.
    InvalidHeaderLength,
    /// The operation code sets a reserved flag.
    ReservedOpCode,
    /// Header length plus payload length differs from the byte count.
    LengthMismatch,
    /// A nonce is not sixteen bytes long.
    MalformedNonce,
}

/// What a transport packet holds.
pub struct PacketModel {
    pub op_code: u8,
    pub sequence_number: u32,
    pub tlvs: Seq<u8>,
    pub payload: Seq<u8>,
}

/// A packet that can be written out: its header length fits in one byte, its
/// payload length in two, and no reserved flag is set.
pub open spec fn packet_wf(p: PacketModel) -> bool {
    &&& p.op_code <= MAX_OP_CODE
    &&& p.tlvs.len() + FIXED_HEADER_LEN <= 255
    &&& p.payload.len() <= 65535
}

/// The bytes of a packet on the wire.
pub open spec fn packet_bytes(p: PacketModel) -> Seq<u8> {
    seq![(p.tlvs.len() + FIXED_HEADER_LEN) as u8, p.op_code] + be16_bytes(p.payload.len())
        + be32_bytes(p.sequence_number as nat) + p.tlvs + p.payload
}

/// The header length that `b` declares.
pub open spec fn declared_header_len(b: Seq<u8>) -> nat {
    b[0] as nat
}

/// The payload length that `b` declares.
pub open spec fn declared_payload_len(b: Seq<u8>) -> nat {
    be_u16(b.subrange(2, 4))
}

/// The payload length that the header at the start of `b` declares, where
/// `b` is long enough to hold that field.
pub open spec fn peek_payload_len(b: Seq<u8>) -> Result<usize, DecodeError> {
    if b.len() < 4 {
        Err(DecodeError::TruncatedHeader)
    } else {
        Ok(declared_payload_len(b) as usize)
    }
}

/// Decoding of a whole byte range as one packet.
pub open spec fn parse_packet(b: Seq<u8>) -> Result<PacketModel, DecodeError> {
    if b.len() < FIXED_HEADER_LEN {
        Err(DecodeError::TruncatedHeader)
    } else if declared_header_len(b) < FIXED_HEADER_LEN {
        Err(DecodeError::InvalidHeaderLength)
    } else if b[1] > MAX_OP_CODE {
        Err(DecodeError::ReservedOpCode)
    } else if declared_header_len(b) + declared_payload_len(b) != b.len() {
        Err(DecodeError::LengthMismatch)
    } else {
        let h = declared_header_len(b) as int;
        Ok(
            PacketModel {
                op_code: b[1],
                sequence_number: be_u32(b.subrange(4, 8)) as u32,
                tlvs: b.subrange(8, h),
                payload: b.subrange(h, b.len() as int),
            },
        )
    }
}

/// A decoded MSNP2P transport packet.
#[derive(Clone, Debug)]
pub struct P2PTransportPacket {
    op_code: u8,
    sequence_number: u32,
    tlvs: Vec<u8>,
    payload: Vec<u8>,
}

impl View for P2PTransportPacket {
    type V = PacketModel;

    closed spec fn view(&self) -> PacketModel {
        PacketModel {
            op_code: self.op_code,
            sequence_number: self.sequence_number,
            tlvs: self.tlvs@,
            payload: self.payload@,
        }
    }
}

impl P2PTransportPacket {
    pub open spec fn wf(&self) -> bool {
        packet_wf(self@)
    }

    /// Decodes `data` as one whole packet.
    pub fn parse(data: &[u8]) -> (r: Result<P2PTransportPacket, DecodeError>)
        ensures
            match r {
                Ok(p) => parse_packet(data@) == Ok::<PacketModel, DecodeError>(p@) && p.wf(),
                Err(e) => parse_packet(data@) == Err::<PacketModel, DecodeError>(e),
            },
    {
        if data.len() < FIXED_HEADER_LEN as usize {
            return Err(DecodeError::TruncatedHeader);
        }
        let header_length = data[0];
        let op_code = data[1];
        if header_length < FIXED_HEADER_LEN {
            return Err(DecodeError::InvalidHeaderLength);
        }
        if op_code > MAX_OP_CODE {
            return Err(DecodeError::ReservedOpCode);
        }
        let payload_length = read_u16_be(&data[2..4]);
        if header_length as usize + payload_length as usize != data.len() {
            return Err(DecodeError::LengthMismatch);
        }
        let sequence_number = read_u32_be(&data[4..8]);
        let h = header_length as usize;
        let tlvs = slice_to_vec(&data[8..h]);
        let payload = slice_to_vec(&data[h..data.len()]);
        let p = P2PTransportPacket { op_code, sequence_number, tlvs, payload };
        assert(p@ == parse_packet(data@)->Ok_0);
        Ok(p)
    }

    /// The payload length that the header at the start of `data` declares,
    /// read without decoding the rest.
    pub fn extract_payload_length(data: &[u8]) -> (r: Result<usize, DecodeError>)
        ensures
            r == peek_payload_len(data@),
    {
        if data.len() < 4 {
            return Err(DecodeError::TruncatedHeader);
        }
        let n = read_u16_be(&data[2..4]);
        Ok(n as usize)
    }

    /// The packet as written on the wire.
    pub fn to_bytes(&self) -> (r: Vec<u8>)
        requires
            self.wf(),
        ensures
            r@ == packet_bytes(self@),
    {
        let mut out: Vec<u8> = Vec::new();
        out.push((self.tlvs.len() as u8) + FIXED_HEADER_LEN);
        out.push(self.op_code);
        let mut len_bytes = write_u16_be(self.payload.len() as u16);
        proof {
            lemma_be16_of_bytes(len_bytes@);
        }
        out.append(&mut len_bytes);
        let mut seq_bytes = write_u32_be(self.sequence_number);
        proof {
            lemma_be32_of_bytes(seq_bytes@);
        }
        out.append(&mut seq_bytes);
        let mut tlvs = self.tlvs.clone();
        out.append(&mut tlvs);
        let mut payload = self.payload.clone();
        out.append(&mut payload);
        assert(out@ =~= packet_bytes(self@));
        out
    }

    pub fn op_code(&self) -> (r: u8)
        ensures
            r == self@.op_code,
    {
        self.op_code
    }

    pub fn sequence_number(&self) -> (r: u32)
        ensures
            r == self@.sequence_number,
    {
        self.sequence_number
    }

    /// The TLV bytes that follow the fixed header.
    pub fn tlvs(&self) -> (r: &[u8])
        ensures
            r@ == self@.tlvs,
    {
        self.tlvs.as_slice()
    }

    pub fn payload(&self) -> (r: &[u8])
        ensures
            r@ == self@.payload,
    {
        self.payload.as_slice()
    }

    /// The length of the packet's payload.
    pub fn payload_length(&self) -> (r: usize)
        ensures
            r == self@.payload.len(),
    {
        self.payload.len()
    }
}

/// Writing a packet out and decoding the bytes gives the packet back.
pub proof fn lemma_parse_of_bytes(p: PacketModel)
    requires
        packet_wf(p),
    ensures
        parse_packet(packet_bytes(p)) == Ok::<PacketModel, DecodeError>(p),
{
    let b = packet_bytes(p);
    lemma_be16_round_trip(p.payload.len());
    lemma_be32_round_trip(p.sequence_number as nat);
    let h = (p.tlvs.len() + 8) as int;
    assert(b.subrange(2, 4) =~= be16_bytes(p.payload.len()));
    assert(b.subrange(4, 8) =~= be32_bytes(p.sequence_number as nat));
    assert(b.subrange(8, h) =~= p.tlvs);
    assert(b.subrange(h, b.len() as int) =~= p.payload);
}

/// Decoding succeeds only where writing the result out gives the same bytes.
pub proof fn lemma_bytes_of_parse(b: Seq<u8>)
    requires
        parse_packet(b) is Ok,
    ensures
        packet_wf(parse_packet(b)->Ok_0),
        packet_bytes(parse_packet(b)->Ok_0) == b,
{
    let p = parse_packet(b)->Ok_0;
    lemma_be16_of_bytes(b.subrange(2, 4));
    lemma_be32_of_bytes(b.subrange(4, 8));
    assert(be_u32(b.subrange(4, 8)) < 0x1_0000_0000) by (nonlinear_arith)
        requires
            b.subrange(4, 8)[0] < 256,
            b.subrange(4, 8)[1] < 256,
            b.subrange(4, 8)[2] < 256,
            b.subrange(4, 8)[3] < 256,
    {
    }
    assert(packet_bytes(p) =~= b);
}

/// Reading only the payload length agrees with decoding the whole packet.
pub proof fn lemma_peek_agrees_with_parse(b: Seq<u8>)
    requires
        parse_packet(b) is Ok,
    ensures
        peek_payload_len(b) == Ok::<usize, DecodeError>(parse_packet(b)->Ok_0.payload.len() as usize),
{
}

} // verus!
