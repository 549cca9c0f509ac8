//! Properties of the stream decoder that hold across calls.

use crate::bytes::{le32_bytes, lemma_le32_round_trip};
use crate::command::{command_frame, command_payload, command_wf, foo_payload, CommandModel, P2PCommand};
use crate::parser::{
    classify, emitted, feed, fresh_parser, lemma_scan_append, lemma_scan_partial, lemma_scan_rest_partial,
    parser_wf, scan, frame_size, is_partial_frame, FrameError, ParserModel, LENGTH_PREFIX_LEN, MAX_PAYLOAD_SIZE,
};
use crate::transport::{lemma_bytes_of_parse, lemma_parse_of_bytes, packet_bytes, DecodeError};
use vstd::prelude::*;

verus! {

/// Reads fed one after another: the commands of all of them, in order, and
/// the parser after the last; decoding stops at the first error.
pub open spec fn feed_all(st: ParserModel, chunks: Seq<Seq<u8>>, expecting_nonce: bool) -> (
    Result<Seq<CommandModel>, FrameError>,
    ParserModel,
)
    decreases chunks.len(),
{
    if chunks.len() == 0 {
        (Ok(seq![]), st)
    } else {
        let (r, st1) = feed(st, chunks[0], expecting_nonce);
        match r {
            Ok(cs) => {
                let (r2, st2) = feed_all(st1, chunks.drop_first(), expecting_nonce);
                (
                    match r2 {
                        Ok(cs2) => Ok(cs + cs2),
                        Err(e) => Err(e),
                    },
                    st2,
                )
            },
            Err(e) => (Err(e), st1),
        }
    }
}

/// Whether the handshake must be waiting for a nonce for the frame of `c` to
/// decode as `c`.
pub open spec fn expecting_nonce_for(c: CommandModel) -> bool {
    c is Nonce
}

/// A command whose frame the decoder accepts: well formed, and its payload
/// within `MAX_PAYLOAD_SIZE`.
pub open spec fn frameable(c: CommandModel) -> bool {
    command_wf(c) && command_payload(c).len() <= MAX_PAYLOAD_SIZE
}

proof fn lemma_feed_all_from(st: ParserModel, chunks: Seq<Seq<u8>>, expecting_nonce: bool)
    requires
        parser_wf(st),
        !st.aborted,
    ensures
        feed_all(st, chunks, expecting_nonce) == feed(st, chunks.flatten(), expecting_nonce),
    decreases chunks.len(),
{
    if chunks.len() == 0 {
        assert(st.incomplete + chunks.flatten() =~= st.incomplete);
        lemma_scan_partial(st.incomplete, expecting_nonce);
    } else {
        let first = chunks[0];
        let others = chunks.drop_first();
        assert(st.incomplete + chunks.flatten() =~= (st.incomplete + first) + others.flatten());
        lemma_scan_append(st.incomplete + first, others.flatten(), expecting_nonce);
        lemma_scan_rest_partial(st.incomplete + first, expecting_nonce);
        match scan(st.incomplete + first, expecting_nonce) {
            Ok((cs, rest)) => {
                let st1 = ParserModel { incomplete: rest, aborted: false };
                lemma_feed_all_from(st1, others, expecting_nonce);
            },
            Err(n) => {},
        }
    }
}

/// Chunk invariance: however a byte stream is split into reads, feeding the
/// reads in order to a new parser yields the same commands, the same error
/// and the same parser as feeding the whole stream at once.
pub proof fn lemma_chunk_invariance(chunks: Seq<Seq<u8>>, expecting_nonce: bool)
    ensures
        feed_all(fresh_parser(), chunks, expecting_nonce) == feed(
            fresh_parser(),
            chunks.flatten(),
            expecting_nonce,
        ),
{
    lemma_feed_all_from(fresh_parser(), chunks, expecting_nonce);
}

/// After any read, what is held back is a partial frame: fewer than four
/// bytes, or fewer than four plus the payload length that its prefix
/// declares, which is within `MAX_PAYLOAD_SIZE`; so never 1404 bytes or more.
pub proof fn lemma_held_back_bounded(st: ParserModel, chunk: Seq<u8>, expecting_nonce: bool)
    requires
        parser_wf(st),
    ensures
        parser_wf(feed(st, chunk, expecting_nonce).1),
        is_partial_frame(feed(st, chunk, expecting_nonce).1.incomplete),
        feed(st, chunk, expecting_nonce).1.incomplete.len() < LENGTH_PREFIX_LEN + MAX_PAYLOAD_SIZE,
{
    lemma_scan_rest_partial(st.incomplete + chunk, expecting_nonce);
}

/// The commands of a whole stream: those of its complete frames, in stream
/// order, payloads that are no command left out; nothing where the stream
/// holds an oversize frame.
pub open spec fn parse_all(s: Seq<u8>, expecting_nonce: bool) -> Option<Seq<CommandModel>> {
    match scan(s, expecting_nonce) {
        Ok((cs, _)) => Some(cs),
        Err(_) => None,
    }
}

/// Chunk invariance, stated on commands: for a stream without an oversize
/// frame, split into reads at any points and fed in order to a new parser,
/// every read succeeds and the commands of all the reads, joined, are those
/// of the whole stream.
pub proof fn lemma_chunk_invariance_commands(chunks: Seq<Seq<u8>>, expecting_nonce: bool)
    requires
        parse_all(chunks.flatten(), expecting_nonce) is Some,
    ensures
        feed_all(fresh_parser(), chunks, expecting_nonce).0 == Ok::<Seq<CommandModel>, FrameError>(
            parse_all(chunks.flatten(), expecting_nonce)->Some_0,
        ),
{
    lemma_feed_all_from(fresh_parser(), chunks, expecting_nonce);
    assert(fresh_parser().incomplete + chunks.flatten() =~= chunks.flatten());
}

/// An empty read yields no command and leaves the parser as it was.
pub proof fn lemma_empty_read(st: ParserModel, expecting_nonce: bool)
    requires
        parser_wf(st),
        !st.aborted,
    ensures
        feed(st, seq![], expecting_nonce) == (Ok::<Seq<CommandModel>, FrameError>(seq![]), st),
{
    assert(st.incomplete + seq![] =~= st.incomplete);
    lemma_scan_partial(st.incomplete, expecting_nonce);
}

/// Round trip: the frame of a command, fed to a new parser, yields exactly
/// that command and leaves nothing held back.
pub proof fn lemma_round_trip(c: CommandModel)
    requires
        frameable(c),
    ensures
        feed(fresh_parser(), command_frame(c), expecting_nonce_for(c)) == (
            Ok::<Seq<CommandModel>, FrameError>(seq![c]),
            fresh_parser(),
        ),
{
    let en = expecting_nonce_for(c);
    let payload = command_payload(c);
    let frame = command_frame(c);
    lemma_le32_round_trip(payload.len());
    let w = seq![] + frame;
    assert(w =~= frame);
    assert(frame.subrange(0, 4) =~= le32_bytes(payload.len()));
    let end = LENGTH_PREFIX_LEN + payload.len();
    assert(frame.subrange(4, end as int) =~= payload);
    assert(frame.subrange(end as int, frame.len() as int) =~= seq![]);
    match c {
        CommandModel::Foo => {},
        CommandModel::Nonce(n) => {
            assert(n.len() != foo_payload().len());
        },
        CommandModel::Data(p) => {
            lemma_parse_of_bytes(p);
            assert(packet_bytes(p).len() != foo_payload().len());
        },
    }
    assert(classify(payload, en) == Ok::<CommandModel, DecodeError>(c));
    assert(emitted(payload, en) == seq![c]);
    assert(frame_size(frame) == payload.len());
    assert(scan(seq![], en) == Ok::<(Seq<CommandModel>, Seq<u8>), u32>((seq![], seq![])));
    assert(seq![c] + seq![] =~= seq![c]);
    assert(scan(frame, en) == Ok::<(Seq<CommandModel>, Seq<u8>), u32>((seq![c], seq![])));
}

/// Every command that a read yields can be framed again.
pub proof fn lemma_emitted_frameable(st: ParserModel, chunk: Seq<u8>, expecting_nonce: bool, i: int)
    requires
        feed(st, chunk, expecting_nonce).0 is Ok,
        0 <= i < feed(st, chunk, expecting_nonce).0->Ok_0.len(),
    ensures
        frameable(feed(st, chunk, expecting_nonce).0->Ok_0[i]),
{
    lemma_scan_frameable(st.incomplete + chunk, expecting_nonce, i);
}

proof fn lemma_scan_frameable(w: Seq<u8>, expecting_nonce: bool, i: int)
    requires
        scan(w, expecting_nonce) is Ok,
        0 <= i < scan(w, expecting_nonce)->Ok_0.0.len(),
    ensures
        frameable(scan(w, expecting_nonce)->Ok_0.0[i]),
    decreases w.len(),
{
    if w.len() >= LENGTH_PREFIX_LEN && frame_size(w) <= MAX_PAYLOAD_SIZE && w.len()
        >= LENGTH_PREFIX_LEN + frame_size(w) {
        let end = LENGTH_PREFIX_LEN + frame_size(w);
        let payload = w.subrange(4, end as int);
        let tail = w.subrange(end as int, w.len() as int);
        let e = emitted(payload, expecting_nonce);
        let cs = scan(tail, expecting_nonce)->Ok_0.0;
        assert(scan(w, expecting_nonce)->Ok_0.0 == e + cs);
        if i < e.len() {
            let c = e[i];
            if let CommandModel::Data(p) = c {
                lemma_bytes_of_parse(payload);
            }
        } else {
            lemma_scan_frameable(tail, expecting_nonce, i - e.len());
        }
    }
}

/// A command is exactly one of the `foo` marker, a nonce and a transport
/// packet.
pub proof fn lemma_classification_exclusive(c: P2PCommand)
    ensures
        (c@ is Foo) || (c@ is Nonce) || (c@ is Data),
        !((c@ is Foo) && (c@ is Nonce)),
        !((c@ is Foo) && (c@ is Data)),
        !((c@ is Nonce) && (c@ is Data)),
{
}

} // verus!
