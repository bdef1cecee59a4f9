//! The stdin loop shared by both transports: one NDJSON op per line,
//! blank lines skipped, unreadable lines reported and skipped, and the
//! loop ends on `stop`, end of input, a read failure, an over-long line or
//! SIGINT.

use vstd::prelude::*;

use crate::output::{
    control, error, error_caused, control_line, error_line, caused_error_line, Detail, DetailV,
    Outbox,
};
use crate::text::{all_whitespace, is_blank};

verus! {

/// Maximum bytes accepted in one stdin line (FFI mode enforces it).
pub const MAX_INPUT_LINE_BYTES: usize = 8 * 1024 * 1024;

/// What one stdin line parsed to.
#[derive(Debug, PartialEq)]
pub enum Parsed<Op> {
    /// An op to carry out.
    Op(Op),
    /// `{"op":"stop"}`.
    Stop,
    /// Not an op: the parser's words.
    Invalid(String),
}

/// What the stdin side of the loop delivered.
#[derive(Debug, PartialEq)]
pub enum StdinEvent<Op> {
    /// One line, with what it parsed to.
    Line { text: String, parsed: Parsed<Op> },
    /// A line longer than [`MAX_INPUT_LINE_BYTES`].
    TooLong,
    /// Reading stdin failed.
    ReadError { cause: String },
    /// End of input.
    Eof,
    /// SIGINT arrived.
    Cancelled,
}

/// What the loop does next.
#[derive(Debug, PartialEq)]
pub enum Step<Op> {
    /// Read the next line.
    Skip,
    /// Carry out this op, then read the next line.
    Dispatch(Op),
    /// Leave the loop.
    Finish,
}

/// The loop's own state: the number of the last line read (1-based).
pub struct StdinState {
    pub line_no: u64,
}

impl StdinState {
    /// Before any line.
    pub fn new() -> (r: StdinState)
        ensures
            r.line_no == 0,
    {
        StdinState { line_no: 0 }
    }
}

/// One turn of the stdin loop: counts the line, reports what needs
/// reporting and says what to do next.
pub fn stdin_step<Op>(state: &mut StdinState, event: StdinEvent<Op>, w: &mut Outbox) -> (r: Step<Op>)
    requires
        (event is Line || event is TooLong) ==> old(state).line_no < u64::MAX,
    ensures
        final(state).line_no == if event is Line || event is TooLong {
            old(state).line_no + 1
        } else {
            old(state).line_no as int
        },
        match event {
            StdinEvent::Line { text, parsed } => {
                if all_whitespace(text@) {
                    r is Skip && final(w)@ == old(w)@
                } else {
                    match parsed {
                        Parsed::Op(op) => r == Step::Dispatch(op) && final(w)@ == old(w)@,
                        Parsed::Stop => r is Finish && final(w)@ == old(w)@.push(
                            control_line("stop requested via stdin"@),
                        ),
                        Parsed::Invalid(e) => r is Skip && final(w)@ == old(w)@.push(
                            error_line(
                                "invalid stdin line"@,
                                Some(
                                    DetailV::InvalidLine {
                                        line_no: final(state).line_no,
                                        line: text@,
                                        parse_error: e@,
                                    },
                                ),
                            ),
                        ),
                    }
                }
            },
            StdinEvent::TooLong => r is Finish && final(w)@ == old(w)@.push(
                error_line(
                    "stdin line exceeds maximum length"@,
                    Some(
                        DetailV::LineTooLong {
                            line_no: final(state).line_no,
                            max_bytes: MAX_INPUT_LINE_BYTES,
                        },
                    ),
                ),
            ),
            StdinEvent::ReadError { cause } => r is Finish && final(w)@ == old(w)@.push(
                caused_error_line("stdin read error"@, cause@),
            ),
            StdinEvent::Eof => r is Finish && final(w)@ == old(w)@.push(control_line("stdin EOF"@)),
            StdinEvent::Cancelled => r is Finish && final(w)@ == old(w)@.push(
                control_line("cancelled (SIGINT)"@),
            ),
        },
{
    match event {
        StdinEvent::Line { text, parsed } => {
            state.line_no = state.line_no + 1;
            if is_blank(text.as_str()) {
                return Step::Skip;
            }
            match parsed {
                Parsed::Op(op) => Step::Dispatch(op),
                Parsed::Stop => {
                    control(w, "stop requested via stdin");
                    Step::Finish
                },
                Parsed::Invalid(e) => {
                    error(
                        w,
                        "invalid stdin line",
                        Some(Detail::InvalidLine { line_no: state.line_no, line: text, parse_error: e }),
                    );
                    Step::Skip
                },
            }
        },
        StdinEvent::TooLong => {
            state.line_no = state.line_no + 1;
            error(
                w,
                "stdin line exceeds maximum length",
                Some(Detail::LineTooLong { line_no: state.line_no, max_bytes: MAX_INPUT_LINE_BYTES }),
            );
            Step::Finish
        },
        StdinEvent::ReadError { cause } => {
            error_caused(w, "stdin read error", cause);
            Step::Finish
        },
        StdinEvent::Eof => {
            control(w, "stdin EOF");
            Step::Finish
        },
        StdinEvent::Cancelled => {
            control(w, "cancelled (SIGINT)");
            Step::Finish
        },
    }
}

} // verus!
