//! Socket mode: what each stdin op sends over the Unix socket, how sends
//! are framed and reported, and how inbound bytes are reported.
//!
//! Framings: `be32` and `be64` put a big-endian length of 4 or 8 bytes
//! before each frame; `varint` puts a LEB128 length; `none` passes bytes
//! through.

use vstd::prelude::*;
use vstd::utf8::encode_utf8;

use bytes::{Bytes, BytesMut};
use tokio_util::codec::{Decoder, Encoder, LengthDelimitedCodec};

use crate::varint::{law_varint_round_trip, leb128, split_varint_frame, varint_prefix, varint_split_spec};
use crate::hex::{decode_hex, decode_hex_spec, hex_encode_spec, hex_lower, HexError};
use crate::output::{
    caused_error_line, control_line, error, error_caused, error_line, Detail, DetailV, Framing,
    Line, LineV, Message, MessageV, Outbox,
};
use crate::text::{is_json_text, json_payload};

verus! {

/// Largest frame payload that may be sent or received.
pub const MAX_FRAME_BYTES: usize = 8 * 1024 * 1024;

/// Bytes read from the socket at a time in raw mode.
pub const RAW_READ_CHUNK: usize = 8 * 1024;

/// One stdin op of socket mode (`stop` is handled by the stdin loop).
#[derive(Debug, PartialEq)]
pub enum SocketOp {
    /// Send `payload` (a JSON value, already serialised, or the words of
    /// its serialisation failure) or `payload_hex` (hex text), which wins.
    Send { payload: Option<Result<Vec<u8>, String>>, payload_hex: Option<String> },
    /// Send the bytes spelled by a hex text.
    Raw { hex: String },
    /// Pause stdin processing.
    SleepMs { ms: u64 },
    /// An op name this mode does not know.
    Unknown,
}

/// How a frame's payload length is written before it.
#[derive(Clone, Copy, Debug, PartialEq, Eq, Structural)]
pub enum LengthPrefix {
    /// A big-endian number of this many bytes (4 or 8).
    BigEndian { width: usize },
    /// A protobuf-style LEB128 varint.
    Varint,
}

/// How a socket session runs, by framing.
#[derive(Clone, Copy, Debug, PartialEq, Eq, Structural)]
pub enum SocketPlan {
    /// No framing: bytes pass through.
    Raw,
    /// Length-prefixed frames.
    Framed { prefix: LengthPrefix },
}

/// A length prefix this probe writes.
pub open spec fn prefix_ok(prefix: LengthPrefix) -> bool {
    prefix matches LengthPrefix::BigEndian { width } ==> (width == 4 || width == 8)
}

/// The frame that carries payload `p` under a length prefix.
pub open spec fn frame_bytes(prefix: LengthPrefix, p: Seq<u8>) -> Seq<u8> {
    match prefix {
        LengthPrefix::BigEndian { width } => be_bytes(p.len(), width as nat) + p,
        LengthPrefix::Varint => leb128(p.len()) + p,
    }
}

/// What to do for one op.
#[derive(Debug, PartialEq)]
pub enum SocketAction {
    /// Write these bytes; the `rc` line reports `payload_len` as sent.
    Write { bytes: Vec<u8>, payload_len: usize },
    /// Sleep this many milliseconds.
    Sleep { ms: u64 },
    /// Nothing more (any error is already reported).
    Nothing,
}

/// `n` as a big-endian number of `width` bytes (the low `width` bytes).
pub open spec fn be_bytes(n: nat, width: nat) -> Seq<u8>
    decreases width,
{
    if width == 0 {
        Seq::empty()
    } else {
        be_bytes(n / 256, (width - 1) as nat).push((n % 256) as u8)
    }
}

/// The number a big-endian byte string spells.
pub open spec fn be_value(b: Seq<u8>) -> nat
    decreases b.len(),
{
    if b.len() == 0 {
        0
    } else {
        be_value(b.drop_last()) * 256 + b.last() as nat
    }
}

/// Calls `LengthDelimitedCodec::encode` on a codec built with a big-endian
/// length field of `width` bytes and a maximum frame length of `max_frame`.
/// Claimed, as the tokio-util source shows: it fails exactly when the
/// payload is longer than the maximum, with the words "frame size too big";
/// otherwise it writes the payload length as `width` big-endian bytes
/// followed by the payload.
#[verifier::external_body]
fn length_delimited_encode(width: usize, max_frame: usize, payload: &[u8]) -> (r: Result<Vec<u8>, String>)
    requires
        width == 4 || width == 8,
        max_frame < pow256(width as nat),
    ensures
        r is Ok <==> payload@.len() <= max_frame,
        r matches Ok(v) ==> v@ == be_bytes(payload@.len(), width as nat) + payload@,
        r matches Err(e) ==> e@ == "frame size too big"@,
{
    let mut codec = LengthDelimitedCodec::builder().length_field_length(width).big_endian()
        .max_frame_length(max_frame).new_codec();
    let mut dst = BytesMut::new();
    match codec.encode(Bytes::copy_from_slice(payload), &mut dst) {
        Ok(()) => Ok(Vec::from(dst)),
        Err(e) => Err(e.to_string()),
    }
}

/// The big-endian spelling of a number below `256^width` reads back as
/// that number, and has `width` bytes.
pub proof fn law_length_prefix_round_trip(n: nat, width: nat)
    ensures
        be_bytes(n, width).len() == width,
        n < pow256(width) ==> be_value(be_bytes(n, width)) == n,
    decreases width,
{
    if width > 0 {
        law_length_prefix_round_trip(n / 256, (width - 1) as nat);
        assert(be_bytes(n, width).drop_last() =~= be_bytes(n / 256, (width - 1) as nat));
        if n < pow256(width) {
            assert(n / 256 < pow256((width - 1) as nat));
        }
    }
}

/// `256` to the power `k`.
pub open spec fn pow256(k: nat) -> nat
    decreases k,
{
    if k == 0 {
        1
    } else {
        256 * pow256((k - 1) as nat)
    }
}

/// A frame the probe sends holds the payload after a prefix that reads
/// back as the payload's length, for every payload the size limit admits.
pub proof fn law_frame_carries_length(payload: Seq<u8>, width: nat)
    requires
        width == 4 || width == 8,
        payload.len() <= MAX_FRAME_BYTES,
    ensures
        ({
            let f = be_bytes(payload.len(), width) + payload;
            &&& be_value(f.subrange(0, width as int)) == payload.len()
            &&& f.subrange(width as int, f.len() as int) == payload
        }),
{
    law_length_prefix_round_trip(payload.len(), width);
    assert(pow256(4) == 4294967296) by {
        reveal_with_fuel(pow256, 5);
    }
    if width == 8 {
        assert(pow256(8) == 18446744073709551616) by {
            reveal_with_fuel(pow256, 9);
        }
    }
    let f = be_bytes(payload.len(), width) + payload;
    assert(f.subrange(0, width as int) =~= be_bytes(payload.len(), width));
    assert(f.subrange(width as int, f.len() as int) =~= payload);
}

/// How a session with this framing runs: `be32`, `be64` and `varint`
/// frame each payload with a length prefix, `none` passes bytes through.
pub fn socket_plan(framing: Framing) -> (r: SocketPlan)
    ensures
        r == match framing {
            Framing::Be32 => SocketPlan::Framed { prefix: LengthPrefix::BigEndian { width: 4 } },
            Framing::Be64 => SocketPlan::Framed { prefix: LengthPrefix::BigEndian { width: 8 } },
            Framing::Varint => SocketPlan::Framed { prefix: LengthPrefix::Varint },
            Framing::Unframed => SocketPlan::Raw,
        },
        r matches SocketPlan::Framed { prefix } ==> prefix_ok(prefix),
{
    match framing {
        Framing::Be32 => SocketPlan::Framed { prefix: LengthPrefix::BigEndian { width: 4 } },
        Framing::Be64 => SocketPlan::Framed { prefix: LengthPrefix::BigEndian { width: 8 } },
        Framing::Varint => SocketPlan::Framed { prefix: LengthPrefix::Varint },
        Framing::Unframed => SocketPlan::Raw,
    }
}

/// Frames a payload: the length prefix, then the payload; a payload over
/// [`MAX_FRAME_BYTES`] is refused with the words "frame size too big".
fn encode_frame(prefix: LengthPrefix, payload: &[u8]) -> (r: Result<Vec<u8>, String>)
    requires
        prefix_ok(prefix),
    ensures
        r is Ok <==> payload@.len() <= MAX_FRAME_BYTES,
        r matches Ok(v) ==> v@ == frame_bytes(prefix, payload@),
        r matches Err(e) ==> e@ == "frame size too big"@,
{
    match prefix {
        LengthPrefix::BigEndian { width } => {
            assert(pow256(4) == 4294967296) by {
                reveal_with_fuel(pow256, 5);
            }
            assert(pow256(8) == 18446744073709551616) by {
                reveal_with_fuel(pow256, 9);
            }
            length_delimited_encode(width, MAX_FRAME_BYTES, payload)
        },
        LengthPrefix::Varint => {
            if payload.len() > MAX_FRAME_BYTES {
                return Err("frame size too big".to_owned());
            }
            let mut v = varint_prefix(payload.len());
            let mut p = vstd::slice::slice_to_vec(payload);
            v.append(&mut p);
            Ok(v)
        },
    }
}

/// Reports the connection attempt.
pub fn connecting(w: &mut Outbox, path: String, framing: Framing)
    ensures
        final(w)@ == old(w)@.push(
            LineV::Control { msg: MessageV::Connecting { path: path@, framing } },
        ),
{
    w.push(Line::Control { msg: Message::Connecting { path, framing } });
}

/// Reports a failed connection to `path`; the process then exits with 2.
pub fn connect_failed(w: &mut Outbox, cause: String, path: String)
    ensures
        final(w)@ == old(w)@.push(
            LineV::Error {
                msg: MessageV::Caused { what: "connect failed"@, cause: cause@ },
                detail: Some(DetailV::Path { path: path@ }),
            },
        ),
{
    w.push(
        Line::Error {
            msg: Message::Caused { what: "connect failed".to_owned(), cause },
            detail: Some(Detail::Path { path }),
        },
    );
}

/// The lines a hex decoding reports.
pub open spec fn hex_report(d: Result<Seq<u8>, HexError>) -> Seq<LineV> {
    match d {
        Ok(_) => Seq::empty(),
        Err(HexError::OddLength) => seq![error_line("payload_hex has odd length"@, None)],
        Err(HexError::NonHexChars) => seq![error_line("payload_hex has non-hex chars"@, None)],
    }
}

/// The bytes a hex decoding yields, if any.
pub open spec fn hex_bytes(d: Result<Seq<u8>, HexError>) -> Option<Seq<u8>> {
    match d {
        Ok(b) => Some(b),
        Err(_) => None,
    }
}

/// Decodes hex text, reporting why when it cannot.
pub fn decode_hex_or_error(w: &mut Outbox, hex: &str) -> (r: Option<Vec<u8>>)
    ensures
        crate::output::opt_bytes(r) == hex_bytes(decode_hex_spec(encode_utf8(hex@))),
        final(w)@ == old(w)@ + hex_report(decode_hex_spec(encode_utf8(hex@))),
{
    match decode_hex(hex) {
        Ok(v) => {
            assert(old(w)@ + Seq::<LineV>::empty() =~= old(w)@);
            Some(v)
        },
        Err(HexError::OddLength) => {
            error(w, "payload_hex has odd length", None);
            assert(final(w)@ =~= old(w)@ + hex_report(decode_hex_spec(encode_utf8(hex@))));
            None
        },
        Err(HexError::NonHexChars) => {
            error(w, "payload_hex has non-hex chars", None);
            assert(final(w)@ =~= old(w)@ + hex_report(decode_hex_spec(encode_utf8(hex@))));
            None
        },
    }
}

/// The bytes an op sends and the lines it reports on the way: hex text
/// wins over a JSON payload, no payload sends nothing, and ops that send
/// nothing yield the empty payload.
pub open spec fn payload_spec(op: SocketOp) -> (Option<Seq<u8>>, Seq<LineV>) {
    match op {
        SocketOp::Send { payload, payload_hex } => match payload_hex {
            Some(h) => {
                let d = decode_hex_spec(encode_utf8(h@));
                (hex_bytes(d), hex_report(d))
            },
            None => match payload {
                Some(Ok(b)) => (Some(b@), Seq::empty()),
                Some(Err(e)) => (None, seq![caused_error_line("payload serialise failed"@, e@)]),
                None => (Some(Seq::empty()), Seq::empty()),
            },
        },
        SocketOp::Raw { hex } => {
            let d = decode_hex_spec(encode_utf8(hex@));
            (hex_bytes(d), hex_report(d))
        },
        _ => (Some(Seq::empty()), Seq::empty()),
    }
}

/// The payload bytes of an op, or `None` after reporting why there are none.
pub fn build_payload_bytes(w: &mut Outbox, op: &SocketOp) -> (r: Option<Vec<u8>>)
    ensures
        crate::output::opt_bytes(r) == payload_spec(*op).0,
        final(w)@ == old(w)@ + payload_spec(*op).1,
{
    match op {
        SocketOp::Send { payload, payload_hex } => {
            match payload_hex {
                Some(h) => decode_hex_or_error(w, h.as_str()),
                None => match payload {
                    Some(Ok(b)) => {
                        assert(old(w)@ + Seq::<LineV>::empty() =~= old(w)@);
                        Some(b.clone())
                    },
                    Some(Err(e)) => {
                        error_caused(w, "payload serialise failed", e.clone());
                        assert(final(w)@ =~= old(w)@ + payload_spec(*op).1);
                        None
                    },
                    None => {
                        assert(old(w)@ + Seq::<LineV>::empty() =~= old(w)@);
                        let r: Vec<u8> = Vec::new();
                        assert(r@ =~= Seq::<u8>::empty());
                        Some(r)
                    },
                },
            }
        },
        SocketOp::Raw { hex } => decode_hex_or_error(w, hex.as_str()),
        _ => {
            assert(old(w)@ + Seq::<LineV>::empty() =~= old(w)@);
            let r: Vec<u8> = Vec::new();
            assert(r@ =~= Seq::<u8>::empty());
            Some(r)
        },
    }
}

/// What a framed session does for one op: `send` and `raw` write one
/// frame holding the payload; `sleep_ms` sleeps; unknown ops are reported.
pub fn plan_framed_op(w: &mut Outbox, prefix: LengthPrefix, op: SocketOp) -> (r: SocketAction)
    requires
        prefix_ok(prefix),
    ensures
        match op {
            SocketOp::Send { .. } | SocketOp::Raw { .. } => match payload_spec(op).0 {
                None => r is Nothing && final(w)@ == old(w)@ + payload_spec(op).1,
                Some(p) => if p.len() <= MAX_FRAME_BYTES {
                    r matches SocketAction::Write { bytes, payload_len } && bytes@ == frame_bytes(
                        prefix,
                        p,
                    ) && payload_len == p.len() && final(w)@ == old(w)@ + payload_spec(op).1
                } else {
                    r is Nothing && final(w)@ == (old(w)@ + payload_spec(op).1).push(
                        caused_error_line("frame encode failed"@, "frame size too big"@),
                    )
                },
            },
            SocketOp::SleepMs { ms } => r == SocketAction::Sleep { ms } && final(w)@ == old(w)@,
            SocketOp::Unknown => r is Nothing && final(w)@ == old(w)@.push(
                error_line("unknown stdin op"@, None),
            ),
        },
{
    match op {
        SocketOp::Send { .. } | SocketOp::Raw { .. } => {
            let bytes = match build_payload_bytes(w, &op) {
                Some(b) => b,
                None => return SocketAction::Nothing,
            };
            let len = bytes.len();
            match encode_frame(prefix, bytes.as_slice()) {
                Ok(framed) => SocketAction::Write { bytes: framed, payload_len: len },
                Err(e) => {
                    error_caused(w, "frame encode failed", e);
                    SocketAction::Nothing
                },
            }
        },
        SocketOp::SleepMs { ms } => SocketAction::Sleep { ms },
        SocketOp::Unknown => {
            error(w, "unknown stdin op", None);
            SocketAction::Nothing
        },
    }
}

/// What a raw session does for one op: the payload is built first (so
/// its errors come first), then `send` and `raw` write it as it is.
pub fn plan_raw_op(w: &mut Outbox, op: SocketOp) -> (r: SocketAction)
    ensures
        match payload_spec(op).0 {
            None => r is Nothing && final(w)@ == old(w)@ + payload_spec(op).1,
            Some(p) => match op {
                SocketOp::Send { .. } | SocketOp::Raw { .. } => r matches SocketAction::Write {
                    bytes,
                    payload_len,
                } && bytes@ == p && payload_len == p.len() && final(w)@ == old(w)@ + payload_spec(
                    op,
                ).1,
                SocketOp::SleepMs { ms } => r == SocketAction::Sleep { ms } && final(w)@ == old(w)@,
                SocketOp::Unknown => r is Nothing && final(w)@ == old(w)@.push(
                    error_line("unknown stdin op"@, None),
                ),
            },
        },
{
    let bytes = match build_payload_bytes(w, &op) {
        Some(b) => b,
        None => return SocketAction::Nothing,
    };
    match op {
        SocketOp::Send { .. } | SocketOp::Raw { .. } => {
            let len = bytes.len();
            SocketAction::Write { bytes, payload_len: len }
        },
        SocketOp::SleepMs { ms } => {
            assert(old(w)@ + Seq::<LineV>::empty() =~= old(w)@);
            SocketAction::Sleep { ms }
        },
        SocketOp::Unknown => {
            assert(old(w)@ + Seq::<LineV>::empty() =~= old(w)@);
            error(w, "unknown stdin op", None);
            SocketAction::Nothing
        },
    }
}

/// Reports a finished write of `payload_len` payload bytes: a failure is
/// reported first (worded for framed or raw mode), then the `rc` line
/// with 0 on success and -1 on failure.
pub fn record_send(w: &mut Outbox, framed: bool, payload_len: usize, written: Result<(), String>)
    ensures
        match written {
            Ok(()) => final(w)@ == old(w)@.push(LineV::SocketRc { rc: 0, bytes_sent: payload_len }),
            Err(e) => final(w)@ == old(w)@.push(
                caused_error_line(
                    if framed {
                        "frame write failed"@
                    } else {
                        "write failed"@
                    },
                    e@,
                ),
            ).push(LineV::SocketRc { rc: -1i32, bytes_sent: payload_len }),
        },
{
    let rc: i32 = match written {
        Ok(()) => 0,
        Err(e) => {
            if framed {
                error_caused(w, "frame write failed", e);
            } else {
                error_caused(w, "write failed", e);
            }
            -1
        },
    };
    w.push(Line::SocketRc { rc, bytes_sent: payload_len });
}

/// The `frame` line for inbound bytes.
pub open spec fn inbound_line(b: Seq<u8>) -> LineV {
    LineV::Frame {
        bytes: b.len() as usize,
        payload: if is_json_text(b) {
            Some(b)
        } else {
            None
        },
        hex: hex_encode_spec(b),
    }
}

/// Reports inbound bytes: their count, the bytes again when they are a
/// JSON text, and always their lowercase hex.
pub fn emit_inbound(w: &mut Outbox, bytes: &[u8])
    requires
        2 * bytes@.len() <= usize::MAX,
    ensures
        final(w)@ == old(w)@.push(inbound_line(bytes@)),
{
    let hex = hex_lower(bytes);
    let payload = json_payload(bytes);
    w.push(Line::Frame { bytes: bytes.len(), payload, hex });
}

/// What the framed reader delivered.
#[derive(Debug, PartialEq)]
pub enum FrameEvent {
    /// One whole frame's payload.
    Frame(Vec<u8>),
    /// Reading or decoding failed.
    ReadError(String),
    /// The peer closed the socket.
    Closed,
    /// The session is shutting down.
    Cancelled,
}

/// One turn of the framed reader: frames are reported unless events are
/// suppressed; a failure or the peer closing is reported and ends it.
/// Returns whether to keep reading.
pub fn framed_inbound_step(w: &mut Outbox, no_events: bool, event: FrameEvent) -> (r: bool)
    requires
        event matches FrameEvent::Frame(b) ==> 2 * b@.len() <= usize::MAX,
    ensures
        match event {
            FrameEvent::Frame(b) => r && final(w)@ == if no_events {
                old(w)@
            } else {
                old(w)@.push(inbound_line(b@))
            },
            FrameEvent::ReadError(e) => !r && final(w)@ == old(w)@.push(
                caused_error_line("frame read error"@, e@),
            ),
            FrameEvent::Closed => !r && final(w)@ == old(w)@.push(
                control_line("socket closed by peer"@),
            ),
            FrameEvent::Cancelled => !r && final(w)@ == old(w)@,
        },
{
    match event {
        FrameEvent::Frame(b) => {
            if !no_events {
                emit_inbound(w, b.as_slice());
            }
            true
        },
        FrameEvent::ReadError(e) => {
            error_caused(w, "frame read error", e);
            false
        },
        FrameEvent::Closed => {
            crate::output::control(w, "socket closed by peer");
            false
        },
        FrameEvent::Cancelled => false,
    }
}

/// What the end of the stream means to a framed reader still holding
/// `pending` bytes of an unfinished frame: a clean close, or an error.
pub fn stream_end_event(pending: usize) -> (r: FrameEvent)
    ensures
        pending == 0 ==> r == FrameEvent::Closed,
        pending > 0 ==> (r matches FrameEvent::ReadError(e) && e@ == "bytes remaining on stream"@),
{
    if pending == 0 {
        FrameEvent::Closed
    } else {
        FrameEvent::ReadError("bytes remaining on stream".to_owned())
    }
}

/// Why buffered bytes can never become a frame.
#[derive(Clone, Copy, Debug, PartialEq, Eq, Structural)]
pub enum FrameError {
    /// The prefix announces more than [`MAX_FRAME_BYTES`].
    TooBig,
    /// A varint prefix whose first ten bytes all carry the high bit.
    Malformed,
}

/// What the front of a receive buffer holds.
#[derive(Debug, PartialEq)]
pub enum FrameSplit {
    /// Not yet a whole frame: read more.
    NeedMore,
    /// One whole frame: its payload, and how many buffered bytes it took.
    Frame { payload: Vec<u8>, consumed: usize },
    /// The bytes can never become a frame.
    Invalid(FrameError),
}

/// [`FrameSplit`] with the payload as a byte sequence.
pub enum FrameSplitV {
    NeedMore,
    Frame { payload: Seq<u8>, consumed: nat },
    Invalid(FrameError),
}

impl View for FrameSplit {
    type V = FrameSplitV;

    open spec fn view(&self) -> FrameSplitV {
        match self {
            FrameSplit::NeedMore => FrameSplitV::NeedMore,
            FrameSplit::Frame { payload, consumed } => FrameSplitV::Frame {
                payload: payload@,
                consumed: *consumed as nat,
            },
            FrameSplit::Invalid(e) => FrameSplitV::Invalid(*e),
        }
    }
}

/// The words of a receive error.
pub fn frame_error_text(e: FrameError) -> (r: String)
    ensures
        r@ == match e {
            FrameError::TooBig => "frame size too big"@,
            FrameError::Malformed => "malformed varint length prefix"@,
        },
{
    match e {
        FrameError::TooBig => "frame size too big".to_owned(),
        FrameError::Malformed => "malformed varint length prefix".to_owned(),
    }
}

/// What the front of `b` holds under a big-endian length of `width` bytes
/// and a limit of `max_frame`: too few bytes for the length needs more; a
/// length over the limit is refused; a payload not yet all there needs
/// more; otherwise the frame.
pub open spec fn be_split_spec(width: nat, max_frame: nat, b: Seq<u8>) -> FrameSplitV {
    if b.len() < width {
        FrameSplitV::NeedMore
    } else {
        let n = be_value(b.take(width as int));
        if n > max_frame {
            FrameSplitV::Invalid(FrameError::TooBig)
        } else if b.len() < width + n {
            FrameSplitV::NeedMore
        } else {
            FrameSplitV::Frame { payload: b.subrange(width as int, (width + n) as int), consumed: width + n }
        }
    }
}

/// What the front of `b` holds under a length prefix.
pub open spec fn split_spec(prefix: LengthPrefix, b: Seq<u8>) -> FrameSplitV {
    match prefix {
        LengthPrefix::BigEndian { width } => be_split_spec(width as nat, MAX_FRAME_BYTES as nat, b),
        LengthPrefix::Varint => varint_split_spec(b),
    }
}

/// Calls `Decoder::decode` of a `LengthDelimitedCodec` built with a
/// big-endian length field of `width` bytes and a maximum frame length of
/// `max_frame`, on a copy of `buf`, and hands back the frame's payload.
/// Claimed, as the tokio-util source shows: with fewer than `width` bytes
/// there is no frame yet; a length over the maximum fails with the words
/// "frame size too big"; with fewer bytes than the length announces there
/// is no frame yet; otherwise the payload is the bytes after the length.
#[verifier::external_body]
fn length_delimited_decode(width: usize, max_frame: usize, buf: &[u8]) -> (r: Result<Option<Vec<u8>>, String>)
    requires
        width == 4 || width == 8,
        max_frame < pow256(width as nat),
    ensures
        match r {
            Ok(None) => be_split_spec(width as nat, max_frame as nat, buf@) is NeedMore,
            Ok(Some(p)) => be_split_spec(width as nat, max_frame as nat, buf@) == (FrameSplitV::Frame {
                payload: p@,
                consumed: (width + p@.len()) as nat,
            }),
            Err(e) => be_split_spec(width as nat, max_frame as nat, buf@) == FrameSplitV::Invalid(
                FrameError::TooBig,
            ) && e@ == "frame size too big"@,
        },
{
    let mut codec = LengthDelimitedCodec::builder().length_field_length(width).big_endian()
        .max_frame_length(max_frame).new_codec();
    let mut src = BytesMut::from(buf);
    match codec.decode(&mut src) {
        Ok(Some(frame)) => Ok(Some(frame.to_vec())),
        Ok(None) => Ok(None),
        Err(e) => Err(e.to_string()),
    }
}

/// Takes the first whole frame with a big-endian length of `width` bytes
/// from the front of a receive buffer.
pub fn split_be_frame(width: usize, buf: &[u8]) -> (r: FrameSplit)
    requires
        width == 4 || width == 8,
    ensures
        r@ == be_split_spec(width as nat, MAX_FRAME_BYTES as nat, buf@),
{
    assert(pow256(4) == 4294967296) by {
        reveal_with_fuel(pow256, 5);
    }
    assert(pow256(8) == 18446744073709551616) by {
        reveal_with_fuel(pow256, 9);
    }
    match length_delimited_decode(width, MAX_FRAME_BYTES, buf) {
        Ok(None) => FrameSplit::NeedMore,
        Ok(Some(payload)) => {
            let consumed = width + payload.len();
            FrameSplit::Frame { payload, consumed }
        },
        Err(_) => FrameSplit::Invalid(FrameError::TooBig),
    }
}

/// Takes the first whole frame from the front of a receive buffer.
pub fn split_frame(prefix: LengthPrefix, buf: &[u8]) -> (r: FrameSplit)
    requires
        prefix_ok(prefix),
    ensures
        r@ == split_spec(prefix, buf@),
{
    match prefix {
        LengthPrefix::BigEndian { width } => split_be_frame(width, buf),
        LengthPrefix::Varint => split_varint_frame(buf),
    }
}

/// A frame the probe sends is split back off by the reader of the same
/// framing: same payload, exactly the frame's bytes taken, whatever follows.
pub proof fn law_frame_splits_back(prefix: LengthPrefix, payload: Seq<u8>, rest: Seq<u8>)
    requires
        prefix_ok(prefix),
        payload.len() <= MAX_FRAME_BYTES,
    ensures
        split_spec(prefix, frame_bytes(prefix, payload) + rest) == (FrameSplitV::Frame {
            payload,
            consumed: frame_bytes(prefix, payload).len(),
        }),
{
    match prefix {
        LengthPrefix::BigEndian { width } => {
            let w = width as nat;
            let n = payload.len();
            law_length_prefix_round_trip(n, w);
            assert(pow256(4) == 4294967296) by {
                reveal_with_fuel(pow256, 5);
            }
            if width == 8 {
                assert(pow256(8) == 18446744073709551616) by {
                    reveal_with_fuel(pow256, 9);
                }
            }
            let b = frame_bytes(prefix, payload) + rest;
            assert(b.take(width as int) =~= be_bytes(n, w));
            assert(b.subrange(width as int, width + n) =~= payload);
        },
        LengthPrefix::Varint => {
            law_varint_round_trip(payload, rest);
        },
    }
}

/// What the raw reader delivered.
#[derive(Debug, PartialEq)]
pub enum ChunkEvent {
    /// One read; zero bytes means the peer closed the socket.
    Read(Vec<u8>),
    /// Reading failed.
    ReadError(String),
    /// The session is shutting down.
    Cancelled,
}

/// One turn of the raw reader: each chunk is reported as a frame unless
/// events are suppressed; end of stream or a failure is reported and ends
/// it. Returns whether to keep reading.
pub fn raw_inbound_step(w: &mut Outbox, no_events: bool, event: ChunkEvent) -> (r: bool)
    requires
        event matches ChunkEvent::Read(b) ==> 2 * b@.len() <= usize::MAX,
    ensures
        match event {
            ChunkEvent::Read(b) => if b@.len() == 0 {
                !r && final(w)@ == old(w)@.push(control_line("socket closed by peer"@))
            } else {
                r && final(w)@ == if no_events {
                    old(w)@
                } else {
                    old(w)@.push(inbound_line(b@))
                }
            },
            ChunkEvent::ReadError(e) => !r && final(w)@ == old(w)@.push(
                caused_error_line("read error"@, e@),
            ),
            ChunkEvent::Cancelled => !r && final(w)@ == old(w)@,
        },
{
    match event {
        ChunkEvent::Read(b) => {
            if b.len() == 0 {
                crate::output::control(w, "socket closed by peer");
                false
            } else {
                if !no_events {
                    emit_inbound(w, b.as_slice());
                }
                true
            }
        },
        ChunkEvent::ReadError(e) => {
            error_caused(w, "read error", e);
            false
        },
        ChunkEvent::Cancelled => false,
    }
}

} // verus!
