//! The NDJSON lines the probe emits, as values, and the outbox that
//! collects them in order. Every line also carries a timestamp, which the
//! writer adds when it prints the line.

use vstd::prelude::*;

verus! {

/// Length-prefix framings of socket mode, and raw pass-through.
#[derive(Clone, Copy, Debug, PartialEq, Eq, Structural)]
pub enum Framing {
    /// Four-byte big-endian length prefix.
    Be32,
    /// Eight-byte big-endian length prefix.
    Be64,
    /// Protobuf-style LEB128 length prefix.
    Varint,
    /// No framing (`--framing none`): bytes pass through as they are.
    Unframed,
}

/// The text of a `control` or `error` line.
#[derive(Debug, PartialEq)]
pub enum Message {
    /// A fixed message.
    Text(String),
    /// `"<what>: <cause>"`, a failure with the words of its cause.
    Caused { what: String, cause: String },
    /// `"loading manifest <manifest> for library <lib>"`.
    LoadingManifest { manifest: String, lib: String },
    /// `"manifest label: <label>"`.
    ManifestLabel { label: String },
    /// `"starting runtime via `<start_symbol>` with <callbacks> callbacks
    /// (<json> json, <json_with_sid> json_with_sid, <raw_with_seq> raw_with_seq),
    /// <lanes> lanes, <ops> ops"`.
    StartingRuntime {
        start_symbol: String,
        callbacks: usize,
        json: usize,
        json_with_sid: usize,
        raw_with_seq: usize,
        lanes: usize,
        ops: usize,
    },
    /// `"stopping runtime with <grace_ms> ms total grace"`.
    StoppingRuntime { grace_ms: u64 },
    /// `"runtime stopped; waiting <remaining_ms> ms for callbacks to drain"`.
    Draining { remaining_ms: u128 },
    /// `"connecting to <path> (framing=<framing>)"`.
    Connecting { path: String, framing: Framing },
}

/// The `detail` object of an `error` line.
#[derive(Debug, PartialEq)]
pub enum Detail {
    /// `{"line_no", "line", "parse_error"}`: a stdin line that is no op.
    InvalidLine { line_no: u64, line: String, parse_error: String },
    /// `{"line_no", "max_bytes"}`: a stdin line over the length limit.
    LineTooLong { line_no: u64, max_bytes: usize },
    /// `{"lib"}`: the library that could not be opened.
    Lib { lib: String },
    /// `{"path"}`: the socket that could not be reached.
    Path { path: String },
    /// `{"len", "max"}`: a payload over the size limit.
    PayloadTooLarge { len: usize, max: usize },
    /// `{"lane"}`: a lane the manifest does not declare.
    UnknownLane { lane: String },
    /// `{"op"}`: an op the manifest does not declare.
    UnknownOp { op: String },
    /// `{"grace_ms"}`: the shutdown grace that ran out.
    GraceExceeded { grace_ms: u64 },
}

/// The `op` field of an FFI `rc` line.
#[derive(Clone, Copy, Debug, PartialEq, Eq, Structural)]
pub enum RcOp {
    Send,
    Call,
}

/// How `inspect` classifies a symbol.
#[derive(Clone, Copy, Debug, PartialEq, Eq, Structural)]
pub enum SymKind {
    /// Code: reported as `"function"`.
    Text,
    /// Data: reported as `"data"`.
    Data,
    /// Anything else: reported as `"other"`.
    Other,
}

/// The container format `inspect` found.
#[derive(Clone, Copy, Debug, PartialEq, Eq, Structural)]
pub enum BinFormat {
    Elf,
    MachO,
    Pe,
    Coff,
    Wasm,
    Xcoff,
    Unknown,
}

/// One output line, without its timestamp.
#[derive(Debug, PartialEq)]
pub enum Line {
    /// `kind: "control"`.
    Control { msg: Message },
    /// `kind: "error"`, with an optional detail object.
    Error { msg: Message, detail: Option<Detail> },
    /// `kind: "rc"` in FFI mode: the return code of a lane or op call.
    FfiRc { op: RcOp, name: String, rc: i32 },
    /// `kind: "rc"` in socket mode: the outcome of one send.
    SocketRc { rc: i32, bytes_sent: usize },
    /// `kind: "frame"`: inbound bytes, with the bytes again as `payload`
    /// when they are a JSON text, and always as lowercase hex.
    Frame { bytes: usize, payload: Option<Vec<u8>>, hex: Vec<u8> },
    /// `kind: "event"`: a `json` callback; `payload` holds the bytes when
    /// they are a JSON text, `payload_raw` their lossy UTF-8 reading otherwise.
    Event { callback: String, payload: Option<Vec<u8>>, payload_raw: Option<String> },
    /// `kind: "json_with_sid"`: a `json_with_sid` callback.
    JsonWithSid {
        callback: String,
        session_id: String,
        payload: Option<Vec<u8>>,
        payload_raw: Option<String>,
    },
    /// `kind: "raw_with_seq"`: a `raw_with_seq` callback, bytes as hex.
    RawWithSeq { callback: String, session_id: String, seq: u64, len: usize, hex: Vec<u8> },
    /// `kind: "symbol"`: one exported symbol.
    Symbol { name: String, sym_kind: SymKind, address: u64, size: u64 },
    /// `kind: "summary"`: the totals of an `inspect` run.
    Summary { format: BinFormat, total: usize, functions: usize, data: usize },
}

/// [`Message`] with every text taken by its characters.
pub enum MessageV {
    Text(Seq<char>),
    Caused { what: Seq<char>, cause: Seq<char> },
    LoadingManifest { manifest: Seq<char>, lib: Seq<char> },
    ManifestLabel { label: Seq<char> },
    StartingRuntime {
        start_symbol: Seq<char>,
        callbacks: usize,
        json: usize,
        json_with_sid: usize,
        raw_with_seq: usize,
        lanes: usize,
        ops: usize,
    },
    StoppingRuntime { grace_ms: u64 },
    Draining { remaining_ms: u128 },
    Connecting { path: Seq<char>, framing: Framing },
}

/// [`Detail`] with every text taken by its characters.
pub enum DetailV {
    InvalidLine { line_no: u64, line: Seq<char>, parse_error: Seq<char> },
    LineTooLong { line_no: u64, max_bytes: usize },
    Lib { lib: Seq<char> },
    Path { path: Seq<char> },
    PayloadTooLarge { len: usize, max: usize },
    UnknownLane { lane: Seq<char> },
    UnknownOp { op: Seq<char> },
    GraceExceeded { grace_ms: u64 },
}

/// [`Line`] with texts as characters and byte buffers as byte sequences.
pub enum LineV {
    Control { msg: MessageV },
    Error { msg: MessageV, detail: Option<DetailV> },
    FfiRc { op: RcOp, name: Seq<char>, rc: i32 },
    SocketRc { rc: i32, bytes_sent: usize },
    Frame { bytes: usize, payload: Option<Seq<u8>>, hex: Seq<u8> },
    Event { callback: Seq<char>, payload: Option<Seq<u8>>, payload_raw: Option<Seq<char>> },
    JsonWithSid {
        callback: Seq<char>,
        session_id: Seq<char>,
        payload: Option<Seq<u8>>,
        payload_raw: Option<Seq<char>>,
    },
    RawWithSeq { callback: Seq<char>, session_id: Seq<char>, seq: u64, len: usize, hex: Seq<u8> },
    Symbol { name: Seq<char>, sym_kind: SymKind, address: u64, size: u64 },
    Summary { format: BinFormat, total: usize, functions: usize, data: usize },
}

/// The characters of an optional text.
pub open spec fn opt_chars(s: Option<String>) -> Option<Seq<char>> {
    match s {
        Some(t) => Some(t@),
        None => None,
    }
}

/// The bytes of an optional buffer.
pub open spec fn opt_bytes(b: Option<Vec<u8>>) -> Option<Seq<u8>> {
    match b {
        Some(v) => Some(v@),
        None => None,
    }
}

impl View for Message {
    type V = MessageV;

    open spec fn view(&self) -> MessageV {
        match self {
            Message::Text(t) => MessageV::Text(t@),
            Message::Caused { what, cause } => MessageV::Caused { what: what@, cause: cause@ },
            Message::LoadingManifest { manifest, lib } => MessageV::LoadingManifest {
                manifest: manifest@,
                lib: lib@,
            },
            Message::ManifestLabel { label } => MessageV::ManifestLabel { label: label@ },
            Message::StartingRuntime {
                start_symbol,
                callbacks,
                json,
                json_with_sid,
                raw_with_seq,
                lanes,
                ops,
            } => MessageV::StartingRuntime {
                start_symbol: start_symbol@,
                callbacks: *callbacks,
                json: *json,
                json_with_sid: *json_with_sid,
                raw_with_seq: *raw_with_seq,
                lanes: *lanes,
                ops: *ops,
            },
            Message::StoppingRuntime { grace_ms } => MessageV::StoppingRuntime {
                grace_ms: *grace_ms,
            },
            Message::Draining { remaining_ms } => MessageV::Draining {
                remaining_ms: *remaining_ms,
            },
            Message::Connecting { path, framing } => MessageV::Connecting {
                path: path@,
                framing: *framing,
            },
        }
    }
}

impl View for Detail {
    type V = DetailV;

    open spec fn view(&self) -> DetailV {
        match self {
            Detail::InvalidLine { line_no, line, parse_error } => DetailV::InvalidLine {
                line_no: *line_no,
                line: line@,
                parse_error: parse_error@,
            },
            Detail::LineTooLong { line_no, max_bytes } => DetailV::LineTooLong {
                line_no: *line_no,
                max_bytes: *max_bytes,
            },
            Detail::Lib { lib } => DetailV::Lib { lib: lib@ },
            Detail::Path { path } => DetailV::Path { path: path@ },
            Detail::PayloadTooLarge { len, max } => DetailV::PayloadTooLarge {
                len: *len,
                max: *max,
            },
            Detail::UnknownLane { lane } => DetailV::UnknownLane { lane: lane@ },
            Detail::UnknownOp { op } => DetailV::UnknownOp { op: op@ },
            Detail::GraceExceeded { grace_ms } => DetailV::GraceExceeded { grace_ms: *grace_ms },
        }
    }
}

/// The view of an optional detail.
pub open spec fn opt_detail(d: Option<Detail>) -> Option<DetailV> {
    match d {
        Some(x) => Some(x@),
        None => None,
    }
}

impl View for Line {
    type V = LineV;

    open spec fn view(&self) -> LineV {
        match self {
            Line::Control { msg } => LineV::Control { msg: msg@ },
            Line::Error { msg, detail } => LineV::Error { msg: msg@, detail: opt_detail(*detail) },
            Line::FfiRc { op, name, rc } => LineV::FfiRc { op: *op, name: name@, rc: *rc },
            Line::SocketRc { rc, bytes_sent } => LineV::SocketRc {
                rc: *rc,
                bytes_sent: *bytes_sent,
            },
            Line::Frame { bytes, payload, hex } => LineV::Frame {
                bytes: *bytes,
                payload: opt_bytes(*payload),
                hex: hex@,
            },
            Line::Event { callback, payload, payload_raw } => LineV::Event {
                callback: callback@,
                payload: opt_bytes(*payload),
                payload_raw: opt_chars(*payload_raw),
            },
            Line::JsonWithSid { callback, session_id, payload, payload_raw } => LineV::JsonWithSid {
                callback: callback@,
                session_id: session_id@,
                payload: opt_bytes(*payload),
                payload_raw: opt_chars(*payload_raw),
            },
            Line::RawWithSeq { callback, session_id, seq, len, hex } => LineV::RawWithSeq {
                callback: callback@,
                session_id: session_id@,
                seq: *seq,
                len: *len,
                hex: hex@,
            },
            Line::Symbol { name, sym_kind, address, size } => LineV::Symbol {
                name: name@,
                sym_kind: *sym_kind,
                address: *address,
                size: *size,
            },
            Line::Summary { format, total, functions, data } => LineV::Summary {
                format: *format,
                total: *total,
                functions: *functions,
                data: *data,
            },
        }
    }
}

/// A fixed control line.
pub open spec fn control_line(msg: Seq<char>) -> LineV {
    LineV::Control { msg: MessageV::Text(msg) }
}

/// A fixed error line with an optional detail.
pub open spec fn error_line(msg: Seq<char>, detail: Option<DetailV>) -> LineV {
    LineV::Error { msg: MessageV::Text(msg), detail }
}

/// An error line whose text is `"<what>: <cause>"`.
pub open spec fn caused_error_line(what: Seq<char>, cause: Seq<char>) -> LineV {
    LineV::Error { msg: MessageV::Caused { what, cause }, detail: None }
}

/// The lines a run has produced and not yet handed to the writer, in order.
pub struct Outbox {
    lines: Vec<Line>,
}

impl View for Outbox {
    type V = Seq<LineV>;

    closed spec fn view(&self) -> Seq<LineV> {
        self.lines@.map_values(|l: Line| l@)
    }
}

impl Outbox {
    /// An empty outbox.
    pub fn new() -> (r: Outbox)
        ensures
            r@ == Seq::<LineV>::empty(),
    {
        let r = Outbox { lines: Vec::new() };
        assert(r@ =~= Seq::<LineV>::empty());
        r
    }

    /// Appends one line.
    pub fn push(&mut self, line: Line)
        ensures
            final(self)@ == old(self)@.push(line@),
    {
        self.lines.push(line);
        assert(self@ =~= old(self)@.push(line@));
    }

    /// Hands over every pending line, oldest first, and leaves the outbox empty.
    pub fn take_lines(&mut self) -> (r: Vec<Line>)
        ensures
            r@.map_values(|l: Line| l@) == old(self)@,
            final(self)@ == Seq::<LineV>::empty(),
    {
        let mut r: Vec<Line> = Vec::new();
        std::mem::swap(&mut r, &mut self.lines);
        assert(self@ =~= Seq::<LineV>::empty());
        r
    }
}

/// Emits a `control` line with the fixed text `msg`.
pub fn control(w: &mut Outbox, msg: &str)
    ensures
        final(w)@ == old(w)@.push(control_line(msg@)),
{
    w.push(Line::Control { msg: Message::Text(msg.to_owned()) });
}

/// Emits an `error` line with the fixed text `msg` and an optional detail.
pub fn error(w: &mut Outbox, msg: &str, detail: Option<Detail>)
    ensures
        final(w)@ == old(w)@.push(error_line(msg@, opt_detail(detail))),
{
    w.push(Line::Error { msg: Message::Text(msg.to_owned()), detail });
}

/// Emits an `error` line reading `"<what>: <cause>"`.
pub fn error_caused(w: &mut Outbox, what: &str, cause: String)
    ensures
        final(w)@ == old(w)@.push(caused_error_line(what@, cause@)),
{
    w.push(Line::Error { msg: Message::Caused { what: what.to_owned(), cause }, detail: None });
}

} // verus!
