//! The refresh cycle: what is written to the terminal, and how long the
//! dashboard rests afterwards.
//!
//! The library decides; whoever drives it writes the text, flushes it, and
//! sleeps. The cycle has one state only: after the announcement, every step
//! shows one frame.

use vstd::prelude::*;
use vstd::string::*;
use crate::frame::{frame_text, render, REFRESH_SECONDS};
use crate::snapshot::Snapshot;
use crate::text::{join_lines, joined, push_line, texts};

verus! {

/// Seconds between the announcement and the first frame.
pub const STARTUP_SECONDS: u64 = 1;

/// One step of the cycle.
#[derive(Clone, Debug, PartialEq, Eq)]
pub struct Step {
    /// What is written to the terminal, and flushed.
    pub text: String,
    /// Seconds to rest after writing.
    pub pause_seconds: u64,
}

/// The lines that announce the dashboard, before the first frame.
pub open spec fn startup_lines() -> Seq<Seq<char>> {
    seq![
        "\x1b[36m+======================================+"@,
        "|     System Monitor in Rust           |"@,
        "+======================================+\x1b[0m"@,
        "Starting... (Ctrl+C to exit)"@,
        ""@,
    ]
}

/// The first step: the announcement, and a rest of `STARTUP_SECONDS`.
pub fn startup() -> (step: Step)
    ensures
        step.text@ == joined(startup_lines()),
        step.pause_seconds == STARTUP_SECONDS,
{
    let mut lines: Vec<String> = Vec::new();
    push_line(&mut lines, String::from_str("\x1b[36m+======================================+"));
    push_line(&mut lines, String::from_str("|     System Monitor in Rust           |"));
    push_line(&mut lines, String::from_str("+======================================+\x1b[0m"));
    push_line(&mut lines, String::from_str("Starting... (Ctrl+C to exit)"));
    push_line(&mut lines, String::from_str(""));
    assert(texts(lines@) =~= startup_lines());
    Step { text: join_lines(&lines), pause_seconds: STARTUP_SECONDS }
}

/// Every later step: the frame for a fresh snapshot, and a rest of
/// `REFRESH_SECONDS`.
pub fn refresh(snapshot: &Snapshot) -> (step: Step)
    requires
        snapshot.valid(),
    ensures
        step.text@ == frame_text(*snapshot),
        step.pause_seconds == REFRESH_SECONDS,
{
    Step { text: render(snapshot), pause_seconds: REFRESH_SECONDS }
}

} // verus!
