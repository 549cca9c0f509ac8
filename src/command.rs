//! The commands carried by MSNP2P frames: the `foo` marker, the handshake
//! nonce, and transport packets.

use crate::bytes::{le32_bytes, lemma_le32_of_bytes, write_u32_le};
use crate::transport::{packet_bytes, packet_wf, P2PTransportPacket, PacketModel};
use vstd::prelude::*;

verus! {

/// Length of a handshake nonce.
pub const NONCE_LEN: usize = 16;

/// What a command is.
pub enum CommandModel {
    Foo,
    Nonce(Seq<u8>),
    Data(PacketModel),
}

/// The payload of the `foo` marker: "foo" and a NUL byte.
pub open spec fn foo_payload() -> Seq<u8> {
    seq![0x66u8, 0x6fu8, 0x6fu8, 0x00u8]
}

/// A command that can be written out as a frame.
pub open spec fn command_wf(c: CommandModel) -> bool {
    match c {
        CommandModel::Foo => true,
        CommandModel::Nonce(n) => n.len() == NONCE_LEN,
        CommandModel::Data(p) => packet_wf(p),
    }
}

/// The payload of the frame that carries `c`.
pub open spec fn command_payload(c: CommandModel) -> Seq<u8> {
    match c {
        CommandModel::Foo => foo_payload(),
        CommandModel::Nonce(n) => n,
        CommandModel::Data(p) => packet_bytes(p),
    }
}

/// The frame that carries `c`: the payload's length, little-endian, then the
/// payload.
pub open spec fn command_frame(c: CommandModel) -> Seq<u8> {
    le32_bytes(command_payload(c).len()) + command_payload(c)
}

/// The three shapes of a command.
#[derive(Clone, Debug)]
enum CommandKind {
    /// The `foo` marker that opens a direct connection.
    Foo,
    /// The sixteen-byte nonce of the handshake.
    Nonce(Vec<u8>),
    /// A transport packet.
    Data(P2PTransportPacket),
}

/// One unit of the MSNP2P direct-connection stream.
#[derive(Clone, Debug)]
pub struct P2PCommand {
    kind: CommandKind,
}

impl View for P2PCommand {
    type V = CommandModel;

    closed spec fn view(&self) -> CommandModel {
        match self.kind {
            CommandKind::Foo => CommandModel::Foo,
            CommandKind::Nonce(n) => CommandModel::Nonce(n@),
            CommandKind::Data(p) => CommandModel::Data(p@),
        }
    }
}

impl P2PCommand {
    pub open spec fn wf(&self) -> bool {
        command_wf(self@)
    }

    /// The `foo` marker.
    pub fn foo() -> (r: P2PCommand)
        ensures
            r@ == CommandModel::Foo,
    {
        P2PCommand { kind: CommandKind::Foo }
    }

    /// A handshake nonce.
    pub fn nonce(nonce: Vec<u8>) -> (r: P2PCommand)
        requires
            nonce@.len() == NONCE_LEN,
        ensures
            r@ == CommandModel::Nonce(nonce@),
            r.wf(),
    {
        P2PCommand { kind: CommandKind::Nonce(nonce) }
    }

    /// A transport packet.
    pub fn data(p2p_packet: P2PTransportPacket) -> (r: P2PCommand)
        ensures
            r@ == CommandModel::Data(p2p_packet@),
            p2p_packet.wf() ==> r.wf(),
    {
        P2PCommand { kind: CommandKind::Data(p2p_packet) }
    }

    /// Payload continuations travel as transport packets of their own, so a
    /// command is left as it is.
    pub fn append_data(&mut self, data: &[u8])
        ensures
            final(self)@ == old(self)@,
    {
    }

    pub fn is_foo(&self) -> (r: bool)
        ensures
            r == (self@ is Foo),
    {
        matches!(self.kind, CommandKind::Foo)
    }

    pub fn is_data(&self) -> (r: bool)
        ensures
            r == (self@ is Data),
    {
        matches!(self.kind, CommandKind::Data(_))
    }

    pub fn is_nonce(&self) -> (r: bool)
        ensures
            r == (self@ is Nonce),
    {
        matches!(self.kind, CommandKind::Nonce(_))
    }

    /// The nonce, for a nonce command.
    pub fn nonce_bytes(&self) -> (r: Option<&[u8]>)
        ensures
            match self@ {
                CommandModel::Nonce(n) => r matches Some(b) && b@ == n,
                _ => r is None,
            },
    {
        match &self.kind {
            CommandKind::Nonce(n) => Some(n.as_slice()),
            _ => None,
        }
    }

    /// The transport packet, for a data command.
    pub fn packet(&self) -> (r: Option<&P2PTransportPacket>)
        ensures
            match self@ {
                CommandModel::Data(p) => r matches Some(q) && q@ == p,
                _ => r is None,
            },
    {
        match &self.kind {
            CommandKind::Data(p) => Some(p),
            _ => None,
        }
    }

    /// The frame that carries this command.
    pub fn to_bytes(&self) -> (r: Vec<u8>)
        requires
            self.wf(),
        ensures
            r@ == command_frame(self@),
    {
        let mut payload: Vec<u8> = match &self.kind {
            CommandKind::Foo => vec![0x66u8, 0x6fu8, 0x6fu8, 0x00u8],
            CommandKind::Nonce(n) => n.clone(),
            CommandKind::Data(p) => p.to_bytes(),
        };
        assert(payload@ =~= command_payload(self@));
        let mut out = write_u32_le(payload.len() as u32);
        proof {
            lemma_le32_of_bytes(out@);
        }
        out.append(&mut payload);
        out
    }
}

} // verus!
