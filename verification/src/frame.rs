//! One complete frame of the dashboard.

use vstd::prelude::*;
use vstd::string::*;
use crate::sections::{
    cpu_lines, cpu_section, disk_lines, disks_section, memory_lines, memory_section,
    network_lines, network_section, process_lines, processes_section, swap_lines, swap_section,
    system_lines, system_section,
};
use crate::snapshot::Snapshot;
use crate::text::{append_decimal, decimal, extend_lines, join_lines, joined, push_line, texts};

verus! {

/// Seconds between two frames. The last line of every frame names it.
pub const REFRESH_SECONDS: u64 = 2;

/// The control sequence that clears the screen and puts the cursor at the top
/// left.
pub open spec fn clear_sequence() -> Seq<char> {
    "\x1B[2J\x1B[1;1H"@
}

/// The box at the top of every frame.
pub open spec fn banner_lines() -> Seq<Seq<char>> {
    seq![
        "\x1b[36m+-----------------------------------------------------+"@,
        "|           System Monitor - Rust                     |"@,
        "+-----------------------------------------------------+\x1b[0m"@,
    ]
}

/// The end of every frame: a blank line and the note on how often the frame
/// is drawn anew.
pub open spec fn footer_lines() -> Seq<Seq<char>> {
    seq![
        ""@,
        "\x1b[90m  Refreshing every "@ + decimal(REFRESH_SECONDS as nat)
            + " seconds... (Ctrl+C to exit)\x1b[0m"@,
    ]
}

/// The lines of a frame: banner, system, processor, memory, swap where there
/// is any, disks, network, processes, footer.
pub open spec fn frame_lines(snapshot: Snapshot) -> Seq<Seq<char>> {
    banner_lines() + system_lines(snapshot) + cpu_lines(snapshot.cpus@) + memory_lines(
        snapshot.used_memory as nat,
        snapshot.total_memory as nat,
    ) + swap_lines(snapshot.used_swap as nat, snapshot.total_swap as nat) + disk_lines(snapshot.disks@)
        + network_lines(snapshot.interfaces@) + process_lines(snapshot.processes@)
        + footer_lines()
}

/// What is written to the terminal for a frame: the sequence that clears the
/// screen, then the lines of the frame, each ended by a line feed.
pub open spec fn frame_text(snapshot: Snapshot) -> Seq<char> {
    clear_sequence() + joined(frame_lines(snapshot))
}

/// The control sequence that clears the screen and puts the cursor at the top
/// left.
pub fn clear_screen() -> (s: &'static str)
    ensures
        s@ == clear_sequence(),
{
    "\x1B[2J\x1B[1;1H"
}

/// The box at the top of every frame.
pub fn banner() -> (lines: Vec<String>)
    ensures
        texts(lines@) == banner_lines(),
{
    let mut lines: Vec<String> = Vec::new();
    push_line(
        &mut lines,
        String::from_str("\x1b[36m+-----------------------------------------------------+"),
    );
    push_line(
        &mut lines,
        String::from_str("|           System Monitor - Rust                     |"),
    );
    push_line(
        &mut lines,
        String::from_str("+-----------------------------------------------------+\x1b[0m"),
    );
    lines
}

/// The end of every frame.
pub fn footer() -> (lines: Vec<String>)
    ensures
        texts(lines@) == footer_lines(),
{
    let mut lines: Vec<String> = Vec::new();
    push_line(&mut lines, String::from_str(""));
    let mut note = String::from_str("\x1b[90m  Refreshing every ");
    append_decimal(&mut note, REFRESH_SECONDS as u128);
    note.append(" seconds... (Ctrl+C to exit)\x1b[0m");
    push_line(&mut lines, note);
    lines
}

/// The lines of the frame for `snapshot`.
pub fn render_lines(snapshot: &Snapshot) -> (lines: Vec<String>)
    requires
        snapshot.valid(),
    ensures
        texts(lines@) == frame_lines(*snapshot),
{
    let mut lines = banner();
    extend_lines(&mut lines, system_section(snapshot));
    extend_lines(&mut lines, cpu_section(&snapshot.cpus));
    extend_lines(&mut lines, memory_section(snapshot.used_memory, snapshot.total_memory));
    extend_lines(&mut lines, swap_section(snapshot.used_swap, snapshot.total_swap));
    extend_lines(&mut lines, disks_section(&snapshot.disks));
    extend_lines(&mut lines, network_section(&snapshot.interfaces));
    extend_lines(&mut lines, processes_section(&snapshot.processes));
    extend_lines(&mut lines, footer());
    lines
}

/// The text of the frame for `snapshot`, as it is written to the terminal.
pub fn render(snapshot: &Snapshot) -> (text: String)
    requires
        snapshot.valid(),
    ensures
        text@ == frame_text(*snapshot),
{
    let lines = render_lines(snapshot);
    let body = join_lines(&lines);
    let mut text = String::from_str(clear_screen());
    text.append(body.as_str());
    text
}

/// The text of the frame for `snapshot` if the snapshot can be shown, and
/// nothing if it cannot.
pub fn try_render(snapshot: &Snapshot) -> (text: Option<String>)
    ensures
        text is Some <==> snapshot.valid(),
        text matches Some(t) ==> t@ == frame_text(*snapshot),
{
    if snapshot.is_valid() {
        Some(render(snapshot))
    } else {
        None
    }
}

} // verus!
