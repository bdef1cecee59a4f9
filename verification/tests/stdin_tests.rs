use seam_probe::output::{Detail, Line, Message, Outbox};
use seam_probe::stdin::{stdin_step, Parsed, StdinEvent, StdinState, Step, MAX_INPUT_LINE_BYTES};

fn line(text: &str, parsed: Parsed<u32>) -> StdinEvent<u32> {
    StdinEvent::Line { text: text.to_string(), parsed }
}

fn control(msg: &str) -> Line {
    Line::Control { msg: Message::Text(msg.to_string()) }
}

#[test]
fn blank_lines_are_counted_and_skipped() {
    let mut st = StdinState::new();
    let mut out = Outbox::new();
    let r = stdin_step(&mut st, line("  \t ", Parsed::Invalid("eof".into())), &mut out);
    assert_eq!(r, Step::Skip);
    assert_eq!(st.line_no, 1);
    assert!(out.take_lines().is_empty());
}

#[test]
fn ops_are_dispatched() {
    let mut st = StdinState::new();
    let mut out = Outbox::new();
    let r = stdin_step(&mut st, line("{\"op\":\"x\"}", Parsed::Op(7)), &mut out);
    assert_eq!(r, Step::Dispatch(7));
    assert_eq!(st.line_no, 1);
    assert!(out.take_lines().is_empty());
}

#[test]
fn invalid_line_is_reported_with_its_number() {
    let mut st = StdinState::new();
    let mut out = Outbox::new();
    stdin_step(&mut st, line("", Parsed::Op(1)), &mut out);
    let r = stdin_step(&mut st, line("nope", Parsed::Invalid("expected value".into())), &mut out);
    assert_eq!(r, Step::Skip);
    assert_eq!(
        out.take_lines(),
        vec![Line::Error {
            msg: Message::Text("invalid stdin line".into()),
            detail: Some(Detail::InvalidLine {
                line_no: 2,
                line: "nope".into(),
                parse_error: "expected value".into(),
            }),
        }]
    );
}

#[test]
fn stop_eof_cancel_and_errors_finish() {
    let mut st = StdinState::new();
    let mut out = Outbox::new();
    assert_eq!(stdin_step(&mut st, line("{\"op\":\"stop\"}", Parsed::Stop), &mut out), Step::Finish);
    assert_eq!(stdin_step::<u32>(&mut st, StdinEvent::Eof, &mut out), Step::Finish);
    assert_eq!(stdin_step::<u32>(&mut st, StdinEvent::Cancelled, &mut out), Step::Finish);
    assert_eq!(
        stdin_step::<u32>(&mut st, StdinEvent::ReadError { cause: "boom".into() }, &mut out),
        Step::Finish
    );
    assert_eq!(st.line_no, 1);
    assert_eq!(
        out.take_lines(),
        vec![
            control("stop requested via stdin"),
            control("stdin EOF"),
            control("cancelled (SIGINT)"),
            Line::Error {
                msg: Message::Caused { what: "stdin read error".into(), cause: "boom".into() },
                detail: None,
            },
        ]
    );
}

#[test]
fn over_long_line_is_counted_and_ends_the_loop() {
    let mut st = StdinState { line_no: 4 };
    let mut out = Outbox::new();
    assert_eq!(stdin_step::<u32>(&mut st, StdinEvent::TooLong, &mut out), Step::Finish);
    assert_eq!(st.line_no, 5);
    assert_eq!(
        out.take_lines(),
        vec![Line::Error {
            msg: Message::Text("stdin line exceeds maximum length".into()),
            detail: Some(Detail::LineTooLong { line_no: 5, max_bytes: MAX_INPUT_LINE_BYTES }),
        }]
    );
    assert_eq!(MAX_INPUT_LINE_BYTES, 8 * 1024 * 1024);
}
