use seam_probe::ffi::{
    bind_callbacks, bind_json_slot, bind_json_with_sid_slot, bind_raw_seq_slot, json_callback,
    json_with_sid_callback, plan_ffi_op, raw_seq_callback, record_rc, stop_finish, CallbackSlots,
    FfiAction, FfiOp, Slot, StopOutcome, MAX_PAYLOAD_BYTES,
};
use seam_probe::manifest::{CallbackField, CallbackKind, Lane, Lifecycle, Manifest, Op, OpKind};
use seam_probe::output::{Detail, Line, Message, Outbox, RcOp};

fn field(name: &str, kind: CallbackKind) -> CallbackField {
    CallbackField { name: name.into(), kind }
}

fn manifest() -> Manifest {
    Manifest {
        schema_version: 2,
        label: Some("demo".into()),
        lifecycle: Lifecycle { start_symbol: "rt_start".into(), stop_symbol: "rt_stop".into() },
        callback_struct: vec![
            field("on_event", CallbackKind::Json),
            field("on_ctl", CallbackKind::JsonWithSid),
            field("on_log", CallbackKind::Json),
            field("on_term", CallbackKind::RawWithSeq),
        ],
        lanes: vec![
            Lane { name: "cmd".into(), symbol: "rt_cmd".into() },
            Lane { name: "cmd".into(), symbol: "rt_cmd2".into() },
            Lane { name: "query".into(), symbol: "rt_query".into() },
        ],
        ops: vec![
            Op { name: "connect".into(), symbol: "rt_connect".into(), kind: OpKind::HandleCstr },
            Op { name: "ping".into(), symbol: "rt_ping".into(), kind: OpKind::HandleOnly },
        ],
    }
}

fn err(msg: &str, detail: Option<Detail>) -> Line {
    Line::Error { msg: Message::Text(msg.into()), detail }
}

#[test]
fn fields_bind_to_the_next_slot_of_their_kind() {
    let m = manifest();
    let mut slots = CallbackSlots::new();
    let plan = bind_callbacks(&mut slots, &m.callback_struct, false);
    assert_eq!(
        plan.bindings,
        vec![
            (CallbackKind::Json, 0),
            (CallbackKind::JsonWithSid, 0),
            (CallbackKind::Json, 1),
            (CallbackKind::RawWithSeq, 0),
        ]
    );
    assert_eq!((plan.json, plan.json_with_sid, plan.raw_with_seq), (2, 1, 1));
    assert_eq!(slots.get(CallbackKind::Json, 1).map(|s| s.field.clone()), Some("on_log".into()));
    assert!(slots.get(CallbackKind::Json, 2).is_none());
    assert!(slots.get(CallbackKind::JsonWithSid, 1).is_none());
}

#[test]
fn bound_slots_read_back() {
    let mut slots = CallbackSlots::new();
    bind_json_slot(&mut slots, 5, Slot { field: "a".into(), no_events: false });
    bind_json_with_sid_slot(&mut slots, 5, Slot { field: "b".into(), no_events: true });
    bind_raw_seq_slot(&mut slots, 63, Slot { field: "c".into(), no_events: false });
    assert_eq!(slots.get(CallbackKind::Json, 5).unwrap().field, "a");
    assert!(slots.get(CallbackKind::JsonWithSid, 5).unwrap().no_events);
    assert_eq!(slots.get(CallbackKind::RawWithSeq, 63).unwrap().field, "c");
    assert!(slots.get(CallbackKind::Json, 63).is_none());
}

#[test]
fn callbacks_produce_event_lines() {
    let mut slots = CallbackSlots::new();
    bind_json_slot(&mut slots, 0, Slot { field: "on_event".into(), no_events: false });
    bind_json_with_sid_slot(&mut slots, 0, Slot { field: "on_ctl".into(), no_events: false });
    bind_raw_seq_slot(&mut slots, 0, Slot { field: "on_term".into(), no_events: false });
    let mut out = Outbox::new();
    json_callback(&slots, 0, Some(b"{\"x\":1}"), &mut out);
    json_callback(&slots, 0, Some(b"oops"), &mut out);
    json_callback(&slots, 0, Some(b""), &mut out);
    json_callback(&slots, 0, None, &mut out);
    json_callback(&slots, 1, Some(b"1"), &mut out);
    json_with_sid_callback(&slots, 0, Some(b"s1"), None, &mut out);
    raw_seq_callback(&slots, 0, None, 42, Some(&[0x1b, 0x5b]), &mut out);
    assert_eq!(
        out.take_lines(),
        vec![
            Line::Event { callback: "on_event".into(), payload: Some(b"{\"x\":1}".to_vec()), payload_raw: None },
            Line::Event { callback: "on_event".into(), payload: None, payload_raw: Some("oops".into()) },
            Line::JsonWithSid {
                callback: "on_ctl".into(),
                session_id: "s1".into(),
                payload: None,
                payload_raw: Some(String::new()),
            },
            Line::RawWithSeq {
                callback: "on_term".into(),
                session_id: String::new(),
                seq: 42,
                len: 2,
                hex: b"1b5b".to_vec(),
            },
        ]
    );
}

#[test]
fn suppressed_events_stay_silent() {
    let mut slots = CallbackSlots::new();
    bind_json_slot(&mut slots, 0, Slot { field: "e".into(), no_events: true });
    bind_raw_seq_slot(&mut slots, 0, Slot { field: "t".into(), no_events: true });
    let mut out = Outbox::new();
    json_callback(&slots, 0, Some(b"{}"), &mut out);
    raw_seq_callback(&slots, 0, Some(b"s"), 1, Some(b"x"), &mut out);
    assert!(out.take_lines().is_empty());
}

#[test]
fn no_events_silences_every_bound_callback() {
    let mut slots = CallbackSlots::new();
    let fields = vec![
        field("a", CallbackKind::Json),
        field("b", CallbackKind::JsonWithSid),
        field("c", CallbackKind::RawWithSeq),
        field("d", CallbackKind::Json),
    ];
    bind_callbacks(&mut slots, &fields, true);
    let mut out = Outbox::new();
    for i in 0..64 {
        json_callback(&slots, i, Some(b"{\"x\":1}"), &mut out);
        json_with_sid_callback(&slots, i, Some(b"s"), Some(b"[]"), &mut out);
        json_with_sid_callback(&slots, i, None, None, &mut out);
        raw_seq_callback(&slots, i, None, 7, Some(b"zz"), &mut out);
    }
    assert!(out.take_lines().is_empty());
}

#[test]
fn null_buffers_read_as_empty() {
    let mut slots = CallbackSlots::new();
    bind_json_with_sid_slot(&mut slots, 3, Slot { field: "ctl".into(), no_events: false });
    bind_raw_seq_slot(&mut slots, 4, Slot { field: "term".into(), no_events: false });
    let mut out = Outbox::new();
    json_with_sid_callback(&slots, 3, Some(b"sid"), None, &mut out);
    raw_seq_callback(&slots, 4, Some(b"sid"), 9, None, &mut out);
    json_with_sid_callback(&slots, 5, Some(b"sid"), None, &mut out);
    assert_eq!(
        out.take_lines(),
        vec![
            Line::JsonWithSid {
                callback: "ctl".into(),
                session_id: "sid".into(),
                payload: None,
                payload_raw: Some(String::new()),
            },
            Line::RawWithSeq {
                callback: "term".into(),
                session_id: "sid".into(),
                seq: 9,
                len: 0,
                hex: Vec::new(),
            },
        ]
    );
}

#[test]
fn send_finds_the_first_lane() {
    let m = manifest();
    let mut out = Outbox::new();
    let a = plan_ffi_op(&mut out, &m, FfiOp::Send { lane: "cmd".into(), payload: Ok(b"{}".to_vec()) });
    assert_eq!(a, FfiAction::CallLane { index: 0, name: "cmd".into(), bytes: b"{}".to_vec() });
    let a = plan_ffi_op(&mut out, &m, FfiOp::Send { lane: "query".into(), payload: Ok(b"1".to_vec()) });
    assert_eq!(a, FfiAction::CallLane { index: 2, name: "query".into(), bytes: b"1".to_vec() });
    assert!(out.take_lines().is_empty());
}

#[test]
fn send_refusals() {
    let m = manifest();
    let mut out = Outbox::new();
    let a = plan_ffi_op(&mut out, &m, FfiOp::Send { lane: "nope".into(), payload: Ok(b"{}".to_vec()) });
    assert_eq!(a, FfiAction::Nothing);
    let big = vec![b' '; MAX_PAYLOAD_BYTES + 1];
    let a = plan_ffi_op(&mut out, &m, FfiOp::Send { lane: "cmd".into(), payload: Ok(big) });
    assert_eq!(a, FfiAction::Nothing);
    let a = plan_ffi_op(&mut out, &m, FfiOp::Send { lane: "cmd".into(), payload: Err("e".into()) });
    assert_eq!(a, FfiAction::Nothing);
    assert_eq!(
        out.take_lines(),
        vec![
            err("unknown lane", Some(Detail::UnknownLane { lane: "nope".into() })),
            err(
                "payload exceeds MAX_PAYLOAD_BYTES",
                Some(Detail::PayloadTooLarge { len: MAX_PAYLOAD_BYTES + 1, max: MAX_PAYLOAD_BYTES }),
            ),
            Line::Error {
                msg: Message::Caused { what: "payload serialise failed".into(), cause: "e".into() },
                detail: None,
            },
        ]
    );
}

#[test]
fn calls() {
    let m = manifest();
    let mut out = Outbox::new();
    let a = plan_ffi_op(&mut out, &m, FfiOp::Call { name: "connect".into(), arg: Some("sess".into()) });
    assert_eq!(a, FfiAction::CallOpCstr { index: 0, name: "connect".into(), arg: "sess".into() });
    let a = plan_ffi_op(&mut out, &m, FfiOp::Call { name: "connect".into(), arg: None });
    assert_eq!(a, FfiAction::CallOpCstr { index: 0, name: "connect".into(), arg: String::new() });
    let a = plan_ffi_op(&mut out, &m, FfiOp::Call { name: "ping".into(), arg: Some("ignored\0".into()) });
    assert_eq!(a, FfiAction::CallOpOnly { index: 1, name: "ping".into() });
    assert!(out.take_lines().is_empty());
    let a = plan_ffi_op(&mut out, &m, FfiOp::Call { name: "connect".into(), arg: Some("a\0b".into()) });
    assert_eq!(a, FfiAction::Nothing);
    let a = plan_ffi_op(&mut out, &m, FfiOp::Call { name: "gone".into(), arg: None });
    assert_eq!(a, FfiAction::Nothing);
    assert_eq!(plan_ffi_op(&mut out, &m, FfiOp::SleepMs { ms: 9 }), FfiAction::Sleep { ms: 9 });
    assert_eq!(plan_ffi_op(&mut out, &m, FfiOp::Unknown), FfiAction::Nothing);
    assert_eq!(
        out.take_lines(),
        vec![
            err("op arg contained interior NUL", None),
            err("unknown op", Some(Detail::UnknownOp { op: "gone".into() })),
            err("unknown stdin op", None),
        ]
    );
    record_rc(&mut out, RcOp::Call, "ping".into(), -3);
    assert_eq!(out.take_lines(), vec![Line::FfiRc { op: RcOp::Call, name: "ping".into(), rc: -3 }]);
}

#[test]
fn stop_waits_out_the_rest_of_the_grace() {
    let mut out = Outbox::new();
    let ns = stop_finish(&mut out, 2000, StopOutcome::Completed { elapsed_ns: 500_000_000 });
    assert_eq!(ns, 1_500_000_000);
    assert_eq!(
        out.take_lines(),
        vec![Line::Control { msg: Message::Draining { remaining_ms: 1500 } }]
    );
    let ns = stop_finish(&mut out, 10, StopOutcome::Completed { elapsed_ns: 20_000_000 });
    assert_eq!(ns, 0);
    assert!(out.take_lines().is_empty());
}

#[test]
fn stop_failures() {
    let mut out = Outbox::new();
    assert_eq!(stop_finish(&mut out, 100, StopOutcome::TimedOut), 0);
    assert_eq!(stop_finish(&mut out, 100, StopOutcome::ChannelClosed), 0);
    assert_eq!(stop_finish(&mut out, 100, StopOutcome::SpawnFailed("no".into())), 0);
    assert_eq!(
        out.take_lines(),
        vec![
            err(
                "runtime stop exceeded shutdown grace; forcing process exit",
                Some(Detail::GraceExceeded { grace_ms: 100 }),
            ),
            err("runtime stop thread ended without reporting completion", None),
            Line::Error {
                msg: Message::Caused { what: "failed to start runtime stop thread".into(), cause: "no".into() },
                detail: None,
            },
        ]
    );
}
