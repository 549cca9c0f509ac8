//! Incremental decoding of the MSNP2P direct-connection stream: frames are a
//! four-byte little-endian length and that many payload bytes, and reads from
//! the socket split them at arbitrary points.

use crate::bytes::{le_u32, read_u32_le};
use crate::command::{foo_payload, CommandModel, P2PCommand, NONCE_LEN};
use crate::transport::{parse_packet, peek_payload_len, PacketModel, DecodeError, P2PTransportPacket};
use vstd::prelude::*;
use vstd::slice::slice_to_vec;

verus! {

/// Largest payload length that a frame may declare. A larger one means the
/// stream has lost its framing.
pub const MAX_PAYLOAD_SIZE: u32 = 1400;

/// Size of a frame's length prefix.
pub const LENGTH_PREFIX_LEN: usize = 4;

/// Why the stream cannot be decoded further.
#[derive(Clone, Copy, Debug, PartialEq, Eq, Structural)]
pub enum FrameError {
    /// A frame declared a payload longer than `MAX_PAYLOAD_SIZE`.
    Oversize { declared: u32 },
    /// An earlier read ended in an oversize frame; the stream is abandoned.
    Aborted,
}

/// The command that a complete payload stands for, given whether the
/// handshake is waiting for a nonce.
pub open spec fn classify(payload: Seq<u8>, expecting_nonce: bool) -> Result<CommandModel, DecodeError> {
    if payload == foo_payload() {
        Ok(CommandModel::Foo)
    } else if payload.len() == NONCE_LEN && expecting_nonce {
        Ok(CommandModel::Nonce(payload))
    } else {
        match parse_packet(payload) {
            Ok(p) => Ok(CommandModel::Data(p)),
            Err(e) => Err(e),
        }
    }
}

/// The commands that one payload yields: a payload that is no command is
/// dropped.
pub open spec fn emitted(payload: Seq<u8>, expecting_nonce: bool) -> Seq<CommandModel> {
    match classify(payload, expecting_nonce) {
        Ok(c) => seq![c],
        Err(_) => seq![],
    }
}

/// The payload length that the frame at the start of `w` declares.
pub open spec fn frame_size(w: Seq<u8>) -> nat {
    le_u32(w)
}

/// Decoding of buffered bytes: the commands of all complete frames, in order,
/// and the bytes of the trailing partial frame; or the size that an oversize
/// frame declared.
pub open spec fn scan(w: Seq<u8>, expecting_nonce: bool) -> Result<(Seq<CommandModel>, Seq<u8>), u32>
    decreases w.len(),
{
    if w.len() < LENGTH_PREFIX_LEN {
        Ok((seq![], w))
    } else if frame_size(w) > MAX_PAYLOAD_SIZE {
        Err(frame_size(w) as u32)
    } else if w.len() < LENGTH_PREFIX_LEN + frame_size(w) {
        Ok((seq![], w))
    } else {
        let end = LENGTH_PREFIX_LEN + frame_size(w);
        match scan(w.subrange(end as int, w.len() as int), expecting_nonce) {
            Ok((cs, rest)) => Ok((emitted(w.subrange(4, end as int), expecting_nonce) + cs, rest)),
            Err(n) => Err(n),
        }
    }
}

/// `r` with `cs` in front of the commands it holds.
pub open spec fn prepend(cs: Seq<CommandModel>, r: Result<(Seq<CommandModel>, Seq<u8>), u32>) -> Result<
    (Seq<CommandModel>, Seq<u8>),
    u32,
> {
    match r {
        Ok((cs2, rest)) => Ok((cs + cs2, rest)),
        Err(n) => Err(n),
    }
}

/// Bytes held back from one read for the next: too few for a length prefix,
/// or a prefix within the limit and less than the payload it declares.
pub open spec fn is_partial_frame(b: Seq<u8>) -> bool {
    b.len() < LENGTH_PREFIX_LEN || (frame_size(b) <= MAX_PAYLOAD_SIZE && b.len()
        < LENGTH_PREFIX_LEN + frame_size(b))
}

/// What a parser holds.
pub struct ParserModel {
    pub incomplete: Seq<u8>,
    pub aborted: bool,
}

pub open spec fn parser_wf(st: ParserModel) -> bool {
    &&& is_partial_frame(st.incomplete)
    &&& st.aborted ==> st.incomplete.len() == 0
}

/// The parser of a new connection.
pub open spec fn fresh_parser() -> ParserModel {
    ParserModel { incomplete: seq![], aborted: false }
}

/// One read: what it returns and the parser after it.
pub open spec fn feed(st: ParserModel, chunk: Seq<u8>, expecting_nonce: bool) -> (
    Result<Seq<CommandModel>, FrameError>,
    ParserModel,
) {
    if st.aborted {
        (Err(FrameError::Aborted), st)
    } else {
        match scan(st.incomplete + chunk, expecting_nonce) {
            Ok((cs, rest)) => (Ok(cs), ParserModel { incomplete: rest, aborted: false }),
            Err(n) => (
                Err(FrameError::Oversize { declared: n }),
                ParserModel { incomplete: seq![], aborted: true },
            ),
        }
    }
}

/// The commands of a returned vector.
pub open spec fn commands_model(v: Seq<P2PCommand>) -> Seq<CommandModel> {
    v.map_values(|c: P2PCommand| c@)
}

pub open spec fn result_model(r: Result<Vec<P2PCommand>, FrameError>) -> Result<
    Seq<CommandModel>,
    FrameError,
> {
    match r {
        Ok(v) => Ok(commands_model(v@)),
        Err(e) => Err(e),
    }
}

/// The payloads of the complete frames in `w` that are no command, each with
/// the reason, in stream order, up to any oversize frame.
pub open spec fn scan_dropped(w: Seq<u8>, expecting_nonce: bool) -> Seq<(Seq<u8>, DecodeError)>
    decreases w.len(),
{
    if w.len() < LENGTH_PREFIX_LEN || frame_size(w) > MAX_PAYLOAD_SIZE || w.len()
        < LENGTH_PREFIX_LEN + frame_size(w) {
        seq![]
    } else {
        let end = LENGTH_PREFIX_LEN + frame_size(w);
        let payload = w.subrange(4, end as int);
        let here: Seq<(Seq<u8>, DecodeError)> = match classify(payload, expecting_nonce) {
            Ok(_) => seq![],
            Err(e) => seq![(payload, e)],
        };
        here + scan_dropped(w.subrange(end as int, w.len() as int), expecting_nonce)
    }
}

/// A complete payload that decoded as no command, kept so that the caller can
/// report it.
#[derive(Clone, Debug)]
pub struct DroppedFrame {
    pub payload: Vec<u8>,
    pub error: DecodeError,
}

pub open spec fn dropped_model(v: Seq<DroppedFrame>) -> Seq<(Seq<u8>, DecodeError)> {
    v.map_values(|d: DroppedFrame| (d.payload@, d.error))
}

/// Each complete frame is one step of `scan`.
proof fn lemma_scan_step(w: Seq<u8>, expecting_nonce: bool)
    requires
        w.len() >= LENGTH_PREFIX_LEN,
        frame_size(w) <= MAX_PAYLOAD_SIZE,
        w.len() >= LENGTH_PREFIX_LEN + frame_size(w),
    ensures
        scan(w, expecting_nonce) == prepend(
            emitted(w.subrange(4, 4 + frame_size(w) as int), expecting_nonce),
            scan(w.subrange(4 + frame_size(w) as int, w.len() as int), expecting_nonce),
        ),
{
}

/// Decoding more bytes after `w` goes on from where decoding `w` stopped.
pub proof fn lemma_scan_append(w: Seq<u8>, x: Seq<u8>, expecting_nonce: bool)
    ensures
        scan(w + x, expecting_nonce) == match scan(w, expecting_nonce) {
            Ok((cs, rest)) => prepend(cs, scan(rest + x, expecting_nonce)),
            Err(n) => Err(n),
        },
    decreases w.len(),
{
    let wx = w + x;
    if let Ok((cs, _)) = scan(wx, expecting_nonce) {
        assert(seq![] + cs =~= cs);
    }
    if w.len() >= LENGTH_PREFIX_LEN {
        assert(wx.subrange(0, 4) =~= w.subrange(0, 4));
        assert(frame_size(wx) == frame_size(w));
        if frame_size(w) <= MAX_PAYLOAD_SIZE && w.len() >= LENGTH_PREFIX_LEN + frame_size(w) {
            let end = LENGTH_PREFIX_LEN + frame_size(w);
            let tail = w.subrange(end as int, w.len() as int);
            assert(wx.subrange(4, end as int) =~= w.subrange(4, end as int));
            assert(wx.subrange(end as int, wx.len() as int) =~= tail + x);
            lemma_scan_append(tail, x, expecting_nonce);
            let e = emitted(w.subrange(4, end as int), expecting_nonce);
            if let Ok((cs, rest)) = scan(tail, expecting_nonce) {
                if let Ok((cs2, rest2)) = scan(rest + x, expecting_nonce) {
                    assert(e + (cs + cs2) =~= (e + cs) + cs2);
                }
            }
        }
    }
}

/// What is held back from one read is a partial frame.
pub proof fn lemma_scan_rest_partial(w: Seq<u8>, expecting_nonce: bool)
    ensures
        scan(w, expecting_nonce) is Ok ==> is_partial_frame(scan(w, expecting_nonce)->Ok_0.1),
    decreases w.len(),
{
    if w.len() >= LENGTH_PREFIX_LEN && frame_size(w) <= MAX_PAYLOAD_SIZE && w.len()
        >= LENGTH_PREFIX_LEN + frame_size(w) {
        let end = LENGTH_PREFIX_LEN + frame_size(w);
        lemma_scan_rest_partial(w.subrange(end as int, w.len() as int), expecting_nonce);
    }
}

/// A partial frame yields nothing and is held back whole.
pub proof fn lemma_scan_partial(w: Seq<u8>, expecting_nonce: bool)
    requires
        is_partial_frame(w),
    ensures
        scan(w, expecting_nonce) == Ok::<(Seq<CommandModel>, Seq<u8>), u32>((seq![], w)),
{
}

/// The decoder of one peer's stream.
pub struct P2PCommandParser {
    incomplete_command: Vec<u8>,
    aborted: bool,
}

impl View for P2PCommandParser {
    type V = ParserModel;

    closed spec fn view(&self) -> ParserModel {
        ParserModel { incomplete: self.incomplete_command@, aborted: self.aborted }
    }
}

impl P2PCommandParser {
    pub open spec fn wf(&self) -> bool {
        parser_wf(self@)
    }

    pub fn new() -> (r: P2PCommandParser)
        ensures
            r@ == fresh_parser(),
            r.wf(),
    {
        P2PCommandParser { incomplete_command: Vec::new(), aborted: false }
    }

    /// The bytes held back for the next read.
    pub fn incomplete(&self) -> (r: &[u8])
        ensures
            r@ == self@.incomplete,
    {
        self.incomplete_command.as_slice()
    }

    /// Whether an oversize frame has ended decoding on this stream.
    pub fn is_aborted(&self) -> (r: bool)
        ensures
            r == self@.aborted,
    {
        self.aborted
    }

    fn get_payload_size(data: &[u8]) -> (r: u32)
        requires
            data@.len() >= LENGTH_PREFIX_LEN,
        ensures
            r as nat == frame_size(data@),
    {
        read_u32_le(data)
    }

    /// The payload length that the transport packet in `data` declares.
    pub fn get_transport_size(&self, data: &[u8]) -> (r: Result<usize, DecodeError>)
        ensures
            r == peek_payload_len(data@),
    {
        P2PTransportPacket::extract_payload_length(data)
    }

    /// A nonce command of exactly sixteen bytes; any other length is a
    /// malformed nonce.
    fn parse_nonce(data: &[u8]) -> (r: Result<P2PCommand, DecodeError>)
        ensures
            data@.len() == NONCE_LEN ==> (r matches Ok(c) && c@ == CommandModel::Nonce(data@) && c.wf()),
            data@.len() != NONCE_LEN ==> r == Err::<P2PCommand, DecodeError>(DecodeError::MalformedNonce),
    {
        if data.len() != NONCE_LEN {
            return Err(DecodeError::MalformedNonce);
        }
        Ok(P2PCommand::nonce(slice_to_vec(data)))
    }

    fn parse_p2p_payload(data: &[u8]) -> (r: Result<P2PCommand, DecodeError>)
        ensures
            match r {
                Ok(c) => parse_packet(data@) matches Ok(p) && c@ == CommandModel::Data(p) && c.wf(),
                Err(e) => parse_packet(data@) == Err::<PacketModel, DecodeError>(e),
            },
    {
        match P2PTransportPacket::parse(data) {
            Ok(p) => Ok(P2PCommand::data(p)),
            Err(e) => Err(e),
        }
    }

    /// The command that a complete payload stands for: the `foo` marker; a
    /// nonce, for sixteen bytes while the handshake waits for one; else a
    /// transport packet, or the reason the payload is none.
    pub fn classify(payload: &[u8], expecting_nonce: bool) -> (r: Result<P2PCommand, DecodeError>)
        ensures
            match r {
                Ok(c) => classify(payload@, expecting_nonce) == Ok::<CommandModel, DecodeError>(c@) && c.wf(),
                Err(e) => classify(payload@, expecting_nonce) == Err::<CommandModel, DecodeError>(e),
            },
    {
        if payload.len() == 4 && payload[0] == 0x66 && payload[1] == 0x6f && payload[2] == 0x6f
            && payload[3] == 0x00 {
            assert(payload@ =~= foo_payload());
            return Ok(P2PCommand::foo());
        }
        assert(payload@ != foo_payload());
        if payload.len() == NONCE_LEN && expecting_nonce {
            return Self::parse_nonce(payload);
        }
        Self::parse_p2p_payload(payload)
    }

    fn store_chunked(&mut self, chunk: &[u8])
        ensures
            final(self)@ == (ParserModel { incomplete: chunk@, aborted: old(self)@.aborted }),
    {
        self.incomplete_command = slice_to_vec(chunk);
    }

    fn pop_chunked(&mut self) -> (r: Vec<u8>)
        ensures
            r@ == old(self)@.incomplete,
            final(self)@ == (ParserModel { incomplete: seq![], aborted: old(self)@.aborted }),
    {
        let mut taken: Vec<u8> = Vec::new();
        core::mem::swap(&mut taken, &mut self.incomplete_command);
        taken
    }

    /// Decodes one read from the socket: the commands of every frame that it
    /// completes, in stream order, holding back a trailing partial frame for
    /// the next read. A payload that is no command (an empty one among them)
    /// is dropped. A frame that declares more than `MAX_PAYLOAD_SIZE` bytes
    /// ends decoding on this stream: this call and every later one return an
    /// error.
    pub fn parse_message(&mut self, message: &[u8], expecting_nonce: bool) -> (r: Result<
        Vec<P2PCommand>,
        FrameError,
    >)
        requires
            old(self).wf(),
        ensures
            final(self).wf(),
            (result_model(r), final(self)@) == feed(old(self)@, message@, expecting_nonce),
            final(self)@.incomplete.len() < LENGTH_PREFIX_LEN + MAX_PAYLOAD_SIZE,
            r is Ok ==> forall|i: int| 0 <= i < r->Ok_0@.len() ==> (#[trigger] r->Ok_0@[i]).wf(),
    {
        match self.parse_message_reporting(message, expecting_nonce) {
            Ok((commands, _)) => Ok(commands),
            Err(e) => Err(e),
        }
    }

    /// As `parse_message`, and also hands back the payloads that were
    /// dropped, with the reason for each.
    pub fn parse_message_reporting(&mut self, message: &[u8], expecting_nonce: bool) -> (r: Result<
        (Vec<P2PCommand>, Vec<DroppedFrame>),
        FrameError,
    >)
        requires
            old(self).wf(),
        ensures
            final(self).wf(),
            (
                match r {
                    Ok((cs, _)) => Ok(commands_model(cs@)),
                    Err(e) => Err(e),
                },
                final(self)@,
            ) == feed(old(self)@, message@, expecting_nonce),
            final(self)@.incomplete.len() < LENGTH_PREFIX_LEN + MAX_PAYLOAD_SIZE,
            r is Ok ==> forall|i: int| 0 <= i < r->Ok_0.0@.len() ==> (#[trigger] r->Ok_0.0@[i]).wf(),
            r is Ok ==> dropped_model(r->Ok_0.1@) == scan_dropped(
                old(self)@.incomplete + message@,
                expecting_nonce,
            ),
    {
        if self.aborted {
            return Err(FrameError::Aborted);
        }
        let ghost start = self@.incomplete + message@;
        let mut work = self.pop_chunked();
        let mut rest = slice_to_vec(message);
        work.append(&mut rest);
        assert(work@ =~= start);
        let ws = work.as_slice();
        let mut out: Vec<P2PCommand> = Vec::new();
        let mut dropped: Vec<DroppedFrame> = Vec::new();
        let mut cursor: usize = 0;
        proof {
            assert(start.subrange(0, start.len() as int) =~= start);
            if let Ok((cs, r)) = scan(start, expecting_nonce) {
                assert(seq![] + cs =~= cs);
            }
            assert(dropped_model(dropped@) + scan_dropped(start, expecting_nonce) =~= scan_dropped(
                start,
                expecting_nonce,
            ));
        }
        loop
            invariant
                ws@ == start,
                start == old(self)@.incomplete + message@,
                !old(self)@.aborted,
                cursor <= ws@.len(),
                scan(start, expecting_nonce) == prepend(
                    commands_model(out@),
                    scan(start.subrange(cursor as int, start.len() as int), expecting_nonce),
                ),
                forall|i: int| 0 <= i < out@.len() ==> (#[trigger] out@[i]).wf(),
                scan_dropped(start, expecting_nonce) == dropped_model(dropped@) + scan_dropped(
                    start.subrange(cursor as int, start.len() as int),
                    expecting_nonce,
                ),
                self@ == (ParserModel { incomplete: seq![], aborted: false }),
            decreases ws@.len() - cursor,
        {
            let ghost w = start.subrange(cursor as int, start.len() as int);
            let remaining = ws.len() - cursor;
            if remaining < LENGTH_PREFIX_LEN {
                self.store_chunked(&ws[cursor..ws.len()]);
                proof {
                    assert(commands_model(out@) + seq![] =~= commands_model(out@));
                    assert(dropped_model(dropped@) + seq![] =~= dropped_model(dropped@));
                }
                return Ok((out, dropped));
            }
            let payload_size = Self::get_payload_size(&ws[cursor..ws.len()]);
            if payload_size > MAX_PAYLOAD_SIZE {
                self.aborted = true;
                return Err(FrameError::Oversize { declared: payload_size });
            }
            let size = payload_size as usize;
            if remaining < LENGTH_PREFIX_LEN + size {
                self.store_chunked(&ws[cursor..ws.len()]);
                proof {
                    assert(commands_model(out@) + seq![] =~= commands_model(out@));
                    assert(dropped_model(dropped@) + seq![] =~= dropped_model(dropped@));
                }
                return Ok((out, dropped));
            }
            let end = cursor + LENGTH_PREFIX_LEN + size;
            let content = &ws[cursor + LENGTH_PREFIX_LEN..end];
            proof {
                lemma_scan_step(w, expecting_nonce);
                assert(content@ =~= w.subrange(4, 4 + size as int));
                assert(w.subrange(4 + size as int, w.len() as int) =~= start.subrange(
                    end as int,
                    start.len() as int,
                ));
            }
            let ghost before = out@;
            let ghost dropped_before = dropped@;
            let ghost tail = start.subrange(end as int, start.len() as int);
            match Self::classify(content, expecting_nonce) {
                Ok(c) => {
                    out.push(c);
                    proof {
                        assert(commands_model(out@) =~= commands_model(before) + seq![c@]);
                        assert(dropped_model(dropped@) + scan_dropped(tail, expecting_nonce)
                            =~= dropped_model(dropped_before) + (seq![] + scan_dropped(tail, expecting_nonce)));
                    }
                },
                Err(e) => {
                    dropped.push(DroppedFrame { payload: slice_to_vec(content), error: e });
                    proof {
                        assert(commands_model(out@) =~= commands_model(before) + seq![]);
                        assert(dropped_model(dropped@) =~= dropped_model(dropped_before) + seq![(content@, e)]);
                        assert(dropped_model(dropped@) + scan_dropped(tail, expecting_nonce)
                            =~= dropped_model(dropped_before) + (seq![(content@, e)] + scan_dropped(tail, expecting_nonce)));
                    }
                },
            }
            proof {
                let e = emitted(content@, expecting_nonce);
                match scan(start.subrange(end as int, start.len() as int), expecting_nonce) {
                    Ok((cs, r)) => {
                        assert(commands_model(before) + (e + cs) =~= commands_model(out@) + cs);
                    },
                    Err(_) => {},
                }
            }
            cursor = end;
        }
    }
}

} // verus!
