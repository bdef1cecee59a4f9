use seam_probe::output::{Framing, Line, Message, Outbox};
use seam_probe::socket::{
    build_payload_bytes, decode_hex_or_error, emit_inbound, frame_error_text,
    framed_inbound_step, plan_framed_op, plan_raw_op, raw_inbound_step, record_send,
    socket_plan, split_be_frame, split_frame, stream_end_event, ChunkEvent, FrameError,
    FrameEvent, FrameSplit, LengthPrefix, SocketAction, SocketOp, SocketPlan, MAX_FRAME_BYTES,
};
use seam_probe::varint::{split_varint_frame, varint_prefix};

fn be(width: usize) -> LengthPrefix {
    LengthPrefix::BigEndian { width }
}

fn err(msg: &str) -> Line {
    Line::Error { msg: Message::Text(msg.into()), detail: None }
}

fn caused(what: &str, cause: &str) -> Line {
    Line::Error { msg: Message::Caused { what: what.into(), cause: cause.into() }, detail: None }
}

#[test]
fn framing_plans() {
    assert_eq!(socket_plan(Framing::Be32), SocketPlan::Framed { prefix: be(4) });
    assert_eq!(socket_plan(Framing::Be64), SocketPlan::Framed { prefix: be(8) });
    assert_eq!(socket_plan(Framing::Varint), SocketPlan::Framed { prefix: LengthPrefix::Varint });
    assert_eq!(socket_plan(Framing::Unframed), SocketPlan::Raw);
}

fn frame_of(width: usize, hex: &str) -> SocketAction {
    let mut out = Outbox::new();
    plan_framed_op(&mut out, LengthPrefix::BigEndian { width }, SocketOp::Raw { hex: hex.into() })
}

#[test]
fn frames_carry_a_big_endian_length() {
    assert_eq!(
        frame_of(4, "6869"),
        SocketAction::Write { bytes: vec![0, 0, 0, 2, b'h', b'i'], payload_len: 2 }
    );
    assert_eq!(frame_of(8, ""), SocketAction::Write { bytes: vec![0; 8], payload_len: 0 });
    let big = "07".repeat(300);
    match frame_of(4, &big) {
        SocketAction::Write { bytes, payload_len } => {
            assert_eq!(payload_len, 300);
            assert_eq!(&bytes[..4], &[0, 0, 1, 44]);
            assert_eq!(&bytes[4..], &vec![7u8; 300][..]);
        }
        other => panic!("unexpected {other:?}"),
    }
}

#[test]
fn frames_up_to_the_limit_are_sent() {
    let at_limit = "00".repeat(MAX_FRAME_BYTES);
    match frame_of(8, &at_limit) {
        SocketAction::Write { bytes, payload_len } => {
            assert_eq!(payload_len, MAX_FRAME_BYTES);
            assert_eq!(&bytes[..8], &[0, 0, 0, 0, 0, 0x80, 0, 0]);
        }
        other => panic!("unexpected {other:?}"),
    }
}

#[test]
fn payload_bytes_prefer_hex() {
    let mut out = Outbox::new();
    let op = SocketOp::Send { payload: Some(Ok(b"{}".to_vec())), payload_hex: Some("0a0B".into()) };
    assert_eq!(build_payload_bytes(&mut out, &op), Some(vec![0x0a, 0x0b]));
    let op = SocketOp::Send { payload: Some(Ok(b"{}".to_vec())), payload_hex: None };
    assert_eq!(build_payload_bytes(&mut out, &op), Some(b"{}".to_vec()));
    let op = SocketOp::Send { payload: None, payload_hex: None };
    assert_eq!(build_payload_bytes(&mut out, &op), Some(Vec::new()));
    assert_eq!(build_payload_bytes(&mut out, &SocketOp::SleepMs { ms: 3 }), Some(Vec::new()));
    assert!(out.take_lines().is_empty());
}

#[test]
fn payload_errors_are_reported() {
    let mut out = Outbox::new();
    assert_eq!(build_payload_bytes(&mut out, &SocketOp::Raw { hex: "abc".into() }), None);
    assert_eq!(build_payload_bytes(&mut out, &SocketOp::Raw { hex: "zz".into() }), None);
    let op = SocketOp::Send { payload: Some(Err("bad".into())), payload_hex: None };
    assert_eq!(build_payload_bytes(&mut out, &op), None);
    assert_eq!(
        out.take_lines(),
        vec![
            err("payload_hex has odd length"),
            err("payload_hex has non-hex chars"),
            caused("payload serialise failed", "bad"),
        ]
    );
    assert_eq!(decode_hex_or_error(&mut out, " ff\n00 "), Some(vec![0xff, 0x00]));
}

#[test]
fn framed_ops() {
    let mut out = Outbox::new();
    let a = plan_framed_op(&mut out, be(4), SocketOp::Raw { hex: "0102".into() });
    assert_eq!(a, SocketAction::Write { bytes: vec![0, 0, 0, 2, 1, 2], payload_len: 2 });
    let a = plan_framed_op(&mut out, be(8), SocketOp::SleepMs { ms: 5 });
    assert_eq!(a, SocketAction::Sleep { ms: 5 });
    let a = plan_framed_op(&mut out, be(4), SocketOp::Unknown);
    assert_eq!(a, SocketAction::Nothing);
    assert_eq!(out.take_lines(), vec![err("unknown stdin op")]);
    let big = "00".repeat(MAX_FRAME_BYTES + 1);
    let a = plan_framed_op(&mut out, be(4), SocketOp::Raw { hex: big });
    assert_eq!(a, SocketAction::Nothing);
    assert_eq!(out.take_lines(), vec![caused("frame encode failed", "frame size too big")]);
}

#[test]
fn raw_ops() {
    let mut out = Outbox::new();
    let a = plan_raw_op(&mut out, SocketOp::Send { payload: Some(Ok(b"[1]".to_vec())), payload_hex: None });
    assert_eq!(a, SocketAction::Write { bytes: b"[1]".to_vec(), payload_len: 3 });
    assert_eq!(plan_raw_op(&mut out, SocketOp::Raw { hex: "1".into() }), SocketAction::Nothing);
    assert_eq!(plan_raw_op(&mut out, SocketOp::Unknown), SocketAction::Nothing);
    assert_eq!(
        out.take_lines(),
        vec![err("payload_hex has odd length"), err("unknown stdin op")]
    );
}

#[test]
fn sends_are_reported() {
    let mut out = Outbox::new();
    record_send(&mut out, true, 9, Ok(()));
    record_send(&mut out, true, 9, Err("pipe".into()));
    record_send(&mut out, false, 2, Err("pipe".into()));
    assert_eq!(
        out.take_lines(),
        vec![
            Line::SocketRc { rc: 0, bytes_sent: 9 },
            caused("frame write failed", "pipe"),
            Line::SocketRc { rc: -1, bytes_sent: 9 },
            caused("write failed", "pipe"),
            Line::SocketRc { rc: -1, bytes_sent: 2 },
        ]
    );
}

#[test]
fn inbound_bytes_are_reported_as_hex_and_json() {
    let mut out = Outbox::new();
    emit_inbound(&mut out, b"{\"ok\":true}");
    emit_inbound(&mut out, &[0xde, 0xad]);
    assert_eq!(
        out.take_lines(),
        vec![
            Line::Frame {
                bytes: 11,
                payload: Some(b"{\"ok\":true}".to_vec()),
                hex: b"7b226f6b223a747275657d".to_vec(),
            },
            Line::Frame { bytes: 2, payload: None, hex: b"dead".to_vec() },
        ]
    );
}

#[test]
fn framed_reader_steps() {
    let mut out = Outbox::new();
    assert!(framed_inbound_step(&mut out, true, FrameEvent::Frame(vec![1])));
    assert!(out.take_lines().is_empty());
    assert!(framed_inbound_step(&mut out, false, FrameEvent::Frame(vec![1])));
    assert!(!framed_inbound_step(&mut out, false, FrameEvent::Closed));
    assert!(!framed_inbound_step(&mut out, false, FrameEvent::ReadError("x".into())));
    assert!(!framed_inbound_step(&mut out, false, FrameEvent::Cancelled));
    assert_eq!(
        out.take_lines(),
        vec![
            Line::Frame { bytes: 1, payload: None, hex: b"01".to_vec() },
            Line::Control { msg: Message::Text("socket closed by peer".into()) },
            caused("frame read error", "x"),
        ]
    );
}

#[test]
fn raw_reader_steps() {
    let mut out = Outbox::new();
    assert!(raw_inbound_step(&mut out, false, ChunkEvent::Read(b"7".to_vec())));
    assert!(raw_inbound_step(&mut out, true, ChunkEvent::Read(b"8".to_vec())));
    assert!(!raw_inbound_step(&mut out, true, ChunkEvent::Read(Vec::new())));
    assert!(!raw_inbound_step(&mut out, false, ChunkEvent::ReadError("r".into())));
    assert_eq!(
        out.take_lines(),
        vec![
            Line::Frame { bytes: 1, payload: Some(b"7".to_vec()), hex: b"37".to_vec() },
            Line::Control { msg: Message::Text("socket closed by peer".into()) },
            caused("read error", "r"),
        ]
    );
}

#[test]
fn varint_prefixes() {
    assert_eq!(varint_prefix(0), vec![0]);
    assert_eq!(varint_prefix(1), vec![1]);
    assert_eq!(varint_prefix(127), vec![0x7f]);
    assert_eq!(varint_prefix(128), vec![0x80, 0x01]);
    assert_eq!(varint_prefix(300), vec![0xac, 0x02]);
    assert_eq!(varint_prefix(MAX_FRAME_BYTES), vec![0x80, 0x80, 0x80, 0x04]);
}

#[test]
fn varint_frames_are_written() {
    let mut out = Outbox::new();
    let a = plan_framed_op(&mut out, LengthPrefix::Varint, SocketOp::Raw { hex: "6869".into() });
    assert_eq!(a, SocketAction::Write { bytes: vec![2, b'h', b'i'], payload_len: 2 });
    let big = "07".repeat(300);
    match plan_framed_op(&mut out, LengthPrefix::Varint, SocketOp::Raw { hex: big }) {
        SocketAction::Write { bytes, payload_len } => {
            assert_eq!(payload_len, 300);
            assert_eq!(&bytes[..2], &[0xac, 0x02]);
            assert_eq!(bytes.len(), 302);
        }
        other => panic!("unexpected {other:?}"),
    }
    let too_big = "00".repeat(MAX_FRAME_BYTES + 1);
    let a = plan_framed_op(&mut out, LengthPrefix::Varint, SocketOp::Raw { hex: too_big });
    assert_eq!(a, SocketAction::Nothing);
    assert_eq!(out.take_lines(), vec![caused("frame encode failed", "frame size too big")]);
}

#[test]
fn varint_frames_are_split() {
    assert_eq!(split_varint_frame(&[]), FrameSplit::NeedMore);
    assert_eq!(split_varint_frame(&[0x80]), FrameSplit::NeedMore);
    assert_eq!(split_varint_frame(&[3, 1, 2]), FrameSplit::NeedMore);
    assert_eq!(
        split_varint_frame(&[2, 1, 2, 9]),
        FrameSplit::Frame { payload: vec![1, 2], consumed: 3 }
    );
    assert_eq!(split_varint_frame(&[0]), FrameSplit::Frame { payload: vec![], consumed: 1 });
    let mut framed = vec![0xac, 0x02];
    framed.extend(vec![5u8; 300]);
    assert_eq!(
        split_varint_frame(&framed),
        FrameSplit::Frame { payload: vec![5u8; 300], consumed: 302 }
    );
    assert_eq!(
        split_varint_frame(&[0x81, 0x80, 0x80, 0x04]),
        FrameSplit::Invalid(FrameError::TooBig)
    );
    assert_eq!(split_varint_frame(&[0xff; 10]), FrameSplit::Invalid(FrameError::Malformed));
    assert_eq!(split_varint_frame(&[0xff; 9]), FrameSplit::NeedMore);
    assert_eq!(frame_error_text(FrameError::TooBig), "frame size too big");
    assert_eq!(frame_error_text(FrameError::Malformed), "malformed varint length prefix");
}

#[test]
fn varint_round_trip() {
    let mut out = Outbox::new();
    for hex in ["", "00", "abcdef", &"11".repeat(200)] {
        let payload: Vec<u8> = (0..hex.len() / 2)
            .map(|i| u8::from_str_radix(&hex[2 * i..2 * i + 2], 16).unwrap())
            .collect();
        match plan_framed_op(&mut out, LengthPrefix::Varint, SocketOp::Raw { hex: hex.into() }) {
            SocketAction::Write { mut bytes, .. } => {
                let n = bytes.len();
                bytes.extend([9, 9, 9]);
                assert_eq!(split_varint_frame(&bytes), FrameSplit::Frame { payload, consumed: n });
            }
            other => panic!("unexpected {other:?}"),
        }
    }
}

#[test]
fn stream_ends() {
    assert_eq!(stream_end_event(0), FrameEvent::Closed);
    assert_eq!(stream_end_event(3), FrameEvent::ReadError("bytes remaining on stream".into()));
}

#[test]
fn big_endian_frames_are_split() {
    assert_eq!(split_be_frame(4, &[0, 0, 0]), FrameSplit::NeedMore);
    assert_eq!(split_be_frame(4, &[0, 0, 0, 2, 7]), FrameSplit::NeedMore);
    assert_eq!(
        split_be_frame(4, &[0, 0, 0, 2, 7, 8, 9]),
        FrameSplit::Frame { payload: vec![7, 8], consumed: 6 }
    );
    assert_eq!(split_be_frame(8, &[0; 8]), FrameSplit::Frame { payload: vec![], consumed: 8 });
    assert_eq!(
        split_be_frame(4, &[0, 0x80, 0, 1]),
        FrameSplit::Invalid(FrameError::TooBig)
    );
    assert_eq!(
        split_be_frame(8, &[0xff, 0, 0, 0, 0, 0, 0, 0]),
        FrameSplit::Invalid(FrameError::TooBig)
    );
    assert_eq!(
        split_be_frame(4, &[0, 0x80, 0, 0]),
        FrameSplit::NeedMore
    );
}

#[test]
fn every_framing_round_trips() {
    let mut out = Outbox::new();
    for prefix in [be(4), be(8), LengthPrefix::Varint] {
        for payload in [vec![], vec![1u8], vec![0xab; 300]] {
            let hex: String = payload.iter().map(|b| format!("{b:02x}")).collect();
            match plan_framed_op(&mut out, prefix, SocketOp::Raw { hex }) {
                SocketAction::Write { mut bytes, .. } => {
                    let n = bytes.len();
                    bytes.extend([1, 2, 3]);
                    assert_eq!(
                        split_frame(prefix, &bytes),
                        FrameSplit::Frame { payload: payload.clone(), consumed: n }
                    );
                }
                other => panic!("unexpected {other:?}"),
            }
        }
    }
    assert!(out.take_lines().is_empty());
}
