//! The blocks of the dashboard, each as a list of lines.

use vstd::prelude::*;
use vstd::string::*;
use crate::bytes::{append_bytes, bytes_text, format_bytes};
use crate::gauge::{append_bar, bar_text, percent, percent_tenths};
use crate::rounding::{lemma_round_scales, round_half_even};
use crate::ranking::{lemma_ranking_exists, positions, ranking, top_by_cpu, TOP_COUNT};
use crate::snapshot::{disks_valid, Cpu, Disk, Interface, Process, Snapshot, FULL_LOAD};
use crate::text::{
    align_left, align_right, append_decimal, append_fitted, append_left, append_one_place,
    append_right, decimal, decimal_string, fit_left, one_place, push_line, texts,
};

verus! {

/// Cells in the bar of a core and in that of all cores together.
pub const CPU_BAR_WIDTH: usize = 25;

/// Cells in the bars of memory and swap.
pub const MEMORY_BAR_WIDTH: usize = 35;

/// Cells in the bar of a disk.
pub const DISK_BAR_WIDTH: usize = 20;

/// Width of the column that holds a disk's mount path.
pub const MOUNT_WIDTH: usize = 15;

/// Least width of the column that holds an interface's name.
pub const INTERFACE_WIDTH: usize = 12;

/// The ratio `value / max` as a percentage with one place after the point.
pub open spec fn percent_text(value: nat, max: nat) -> Seq<char> {
    one_place(percent_tenths(value, max))
}

/// The ratio `value / max` as a percentage with one place after the point.
pub fn percent_string(value: u128, max: u128) -> (s: String)
    requires
        max > 0,
        1000 * value <= u128::MAX,
    ensures
        s@ == percent_text(value as nat, max as nat),
{
    let mut s = String::new();
    append_one_place(&mut s, percent(value, max));
    s
}

/// The name if there is one, else the placeholder.
pub open spec fn name_or(name: Option<String>, placeholder: Seq<char>) -> Seq<char> {
    match name {
        Some(n) => n@,
        None => placeholder,
    }
}

fn pick_name<'a>(name: &'a Option<String>, placeholder: &'a str) -> (s: &'a str)
    ensures
        s@ == name_or(*name, placeholder@),
{
    match name {
        Some(n) => n.as_str(),
        None => placeholder,
    }
}

/// Time since the start of the host as hours, minutes and seconds.
pub open spec fn uptime_text(seconds: nat) -> Seq<char> {
    decimal(seconds / 3600) + "h "@ + decimal(seconds % 3600 / 60) + "m "@ + decimal(seconds % 60)
        + "s"@
}

/// Appends the time since the start of the host.
pub fn append_uptime(out: &mut String, seconds: u64)
    ensures
        final(out)@ == old(out)@ + uptime_text(seconds as nat),
{
    append_decimal(out, (seconds / 3600) as u128);
    out.append("h ");
    append_decimal(out, (seconds % 3600 / 60) as u128);
    out.append("m ");
    append_decimal(out, (seconds % 60) as u128);
    out.append("s");
}

/// The block that names the system: a blank line, the heading, operating
/// system, kernel, host and uptime. A name that is not known is shown as
/// `Unknown` (operating system) or `?` (kernel, host).
pub open spec fn system_lines(snapshot: Snapshot) -> Seq<Seq<char>> {
    seq![
        ""@,
        "\x1b[1m System\x1b[0m"@,
        "  OS:       "@ + name_or(snapshot.os_name, "Unknown"@),
        "  Kernel:   "@ + name_or(snapshot.kernel_version, "?"@),
        "  Host:     "@ + name_or(snapshot.host_name, "?"@),
        "  Uptime:   "@ + uptime_text(snapshot.uptime as nat),
    ]
}

/// The block that names the system.
pub fn system_section(snapshot: &Snapshot) -> (lines: Vec<String>)
    ensures
        texts(lines@) == system_lines(*snapshot),
{
    let mut lines: Vec<String> = Vec::new();
    push_line(&mut lines, String::from_str(""));
    push_line(&mut lines, String::from_str("\x1b[1m System\x1b[0m"));
    let mut os = String::from_str("  OS:       ");
    os.append(pick_name(&snapshot.os_name, "Unknown"));
    push_line(&mut lines, os);
    let mut kernel = String::from_str("  Kernel:   ");
    kernel.append(pick_name(&snapshot.kernel_version, "?"));
    push_line(&mut lines, kernel);
    let mut host = String::from_str("  Host:     ");
    host.append(pick_name(&snapshot.host_name, "?"));
    push_line(&mut lines, host);
    let mut uptime = String::from_str("  Uptime:   ");
    append_uptime(&mut uptime, snapshot.uptime);
    push_line(&mut lines, uptime);
    lines
}

/// The brand of the first core, or `Unknown` where no core is reported.
pub open spec fn cpu_model(cpus: Seq<Cpu>) -> Seq<char> {
    if cpus.len() > 0 {
        cpus[0].brand@
    } else {
        "Unknown"@
    }
}

/// The loads of all cores added up, in thousandths of a percent.
pub open spec fn total_usage(cpus: Seq<Cpu>) -> nat
    decreases cpus.len(),
{
    if cpus.len() == 0 {
        0
    } else {
        total_usage(cpus.drop_last()) + cpus.last().usage as nat
    }
}

/// The line of the core at `index`: its number, its bar and its load.
pub open spec fn core_line(index: nat, usage: nat) -> Seq<char> {
    "  Core "@ + align_right(decimal(index), 2) + ": "@ + bar_text(
        usage,
        FULL_LOAD as nat,
        CPU_BAR_WIDTH as nat,
    ) + " "@ + align_right(percent_text(usage, FULL_LOAD as nat), 5) + "%"@
}

/// The line of all cores together. Its ratio is the sum of the loads over as
/// many full loads as there are cores: the arithmetic mean of the loads.
pub open spec fn total_line(cpus: Seq<Cpu>) -> Seq<char> {
    "  \x1b[1mTotal:   "@ + bar_text(
        total_usage(cpus),
        FULL_LOAD as nat * cpus.len(),
        CPU_BAR_WIDTH as nat,
    ) + " "@ + percent_text(total_usage(cpus), FULL_LOAD as nat * cpus.len()) + "%\x1b[0m"@
}

/// The lines of the cores, in the order of `cpus`, numbered from 0.
pub open spec fn core_lines(cpus: Seq<Cpu>) -> Seq<Seq<char>> {
    Seq::new(cpus.len(), |i: int| core_line(i as nat, cpus[i].usage as nat))
}

/// The processor block: a blank line, the heading, model and number of cores,
/// a line for each core, and the line of all cores together.
pub open spec fn cpu_lines(cpus: Seq<Cpu>) -> Seq<Seq<char>> {
    seq![
        ""@,
        "\x1b[1m CPU\x1b[0m"@,
        "  Model:    "@ + cpu_model(cpus),
        "  Cores:    "@ + decimal(cpus.len()),
    ] + core_lines(cpus) + seq![total_line(cpus)]
}

/// The brand of the first core, or `Unknown` where no core is reported.
pub fn model_name(cpus: &Vec<Cpu>) -> (name: &str)
    ensures
        name@ == cpu_model(cpus@),
{
    if cpus.len() > 0 {
        cpus[0].brand.as_str()
    } else {
        "Unknown"
    }
}

/// The line of the core at `index`.
pub fn core_line_string(index: usize, usage: u32) -> (s: String)
    ensures
        s@ == core_line(index as nat, usage as nat),
{
    let mut s = String::from_str("  Core ");
    let number = decimal_string(index as u128);
    append_right(&mut s, number.as_str(), 2);
    s.append(": ");
    append_bar(&mut s, usage as u128, FULL_LOAD as u128, CPU_BAR_WIDTH);
    s.append(" ");
    let load = percent_string(usage as u128, FULL_LOAD as u128);
    append_right(&mut s, load.as_str(), 5);
    s.append("%");
    s
}

/// The loads of all cores added up.
pub fn sum_usage(cpus: &Vec<Cpu>) -> (sum: u128)
    ensures
        sum == total_usage(cpus@),
        sum <= cpus.len() * u32::MAX,
{
    let mut sum: u128 = 0;
    let mut i: usize = 0;
    while i < cpus.len()
        invariant
            i <= cpus.len(),
            sum == total_usage(cpus@.take(i as int)),
            sum <= i * u32::MAX,
        decreases cpus.len() - i,
    {
        assert(cpus@.take(i as int + 1).drop_last() =~= cpus@.take(i as int));
        assert(i * u32::MAX <= usize::MAX * u32::MAX) by (nonlinear_arith)
            requires
                i <= usize::MAX,
        ;
        sum = sum + cpus[i].usage as u128;
        i += 1;
    }
    assert(cpus@.take(i as int) =~= cpus@);
    sum
}

/// The line of all cores together.
pub fn total_line_string(cpus: &Vec<Cpu>) -> (s: String)
    requires
        cpus.len() > 0,
    ensures
        s@ == total_line(cpus@),
{
    let sum = sum_usage(cpus);
    let full: u128 = FULL_LOAD as u128 * cpus.len() as u128;
    assert(sum <= usize::MAX * u32::MAX) by (nonlinear_arith)
        requires
            sum <= cpus.len() * u32::MAX,
            cpus.len() <= usize::MAX,
    ;
    let mut s = String::from_str("  \x1b[1mTotal:   ");
    append_bar(&mut s, sum, full, CPU_BAR_WIDTH);
    s.append(" ");
    let load = percent_string(sum, full);
    s.append(load.as_str());
    s.append("%\x1b[0m");
    s
}

/// The percentage in the line of all cores together is the arithmetic mean
/// of the loads, the sum of the loads over their number, brought from
/// thousandths to tenths of a percent and rounded once.
pub proof fn lemma_total_is_mean(cpus: Seq<Cpu>)
    requires
        cpus.len() > 0,
    ensures
        percent_tenths(total_usage(cpus), FULL_LOAD as nat * cpus.len()) == round_half_even(
            total_usage(cpus),
            100 * cpus.len(),
        ),
{
    lemma_round_scales(total_usage(cpus), 100 * cpus.len(), 1000);
}

/// The processor block. It is defined where there is at least one core: the
/// mean of no loads is not.
pub fn cpu_section(cpus: &Vec<Cpu>) -> (lines: Vec<String>)
    requires
        cpus.len() > 0,
    ensures
        texts(lines@) == cpu_lines(cpus@),
{
    let mut lines: Vec<String> = Vec::new();
    push_line(&mut lines, String::from_str(""));
    push_line(&mut lines, String::from_str("\x1b[1m CPU\x1b[0m"));
    let mut model = String::from_str("  Model:    ");
    model.append(model_name(cpus));
    push_line(&mut lines, model);
    let mut cores = String::from_str("  Cores:    ");
    append_decimal(&mut cores, cpus.len() as u128);
    push_line(&mut lines, cores);
    let ghost head = texts(lines@);
    assert(head =~= seq![
        ""@,
        "\x1b[1m CPU\x1b[0m"@,
        "  Model:    "@ + cpu_model(cpus@),
        "  Cores:    "@ + decimal(cpus@.len()),
    ]);
    let mut i: usize = 0;
    while i < cpus.len()
        invariant
            i <= cpus.len(),
            texts(lines@) == head + core_lines(cpus@.take(i as int)),
        decreases cpus.len() - i,
    {
        let line = core_line_string(i, cpus[i].usage);
        push_line(&mut lines, line);
        i += 1;
    }
    push_line(&mut lines, total_line_string(cpus));
    lines
}

/// A bar of memory width for `value / max`, followed by the percentage.
pub open spec fn gauge_line(value: nat, max: nat) -> Seq<char> {
    "  "@ + bar_text(value, max, MEMORY_BAR_WIDTH as nat) + " "@ + percent_text(value, max) + "%"@
}

/// A bar of memory width for `value / max`, followed by the percentage.
pub fn gauge_line_string(value: u64, max: u64) -> (s: String)
    requires
        max > 0,
    ensures
        s@ == gauge_line(value as nat, max as nat),
{
    let mut s = String::from_str("  ");
    append_bar(&mut s, value as u128, max as u128, MEMORY_BAR_WIDTH);
    s.append(" ");
    let share = percent_string(value as u128, max as u128);
    s.append(share.as_str());
    s.append("%");
    s
}

/// Memory that is not in use: what is left of the total, and nothing where
/// more than the total is reported as used.
pub open spec fn free_memory(used: nat, total: nat) -> nat {
    if used <= total {
        (total - used) as nat
    } else {
        0
    }
}

/// The memory block: a blank line, the heading, the bar with the share in
/// use, and the amounts used, free and in total.
pub open spec fn memory_lines(used: nat, total: nat) -> Seq<Seq<char>> {
    seq![
        ""@,
        "\x1b[1m Memory\x1b[0m"@,
        gauge_line(used, total),
        "  Used: "@ + bytes_text(used) + "  Free: "@ + bytes_text(free_memory(used, total))
            + "  Total: "@ + bytes_text(total),
    ]
}

/// The memory block. It is defined where there is memory at all.
pub fn memory_section(used: u64, total: u64) -> (lines: Vec<String>)
    requires
        total > 0,
    ensures
        texts(lines@) == memory_lines(used as nat, total as nat),
{
    let free = if used <= total {
        total - used
    } else {
        0
    };
    let mut lines: Vec<String> = Vec::new();
    push_line(&mut lines, String::from_str(""));
    push_line(&mut lines, String::from_str("\x1b[1m Memory\x1b[0m"));
    push_line(&mut lines, gauge_line_string(used, total));
    let mut amounts = String::from_str("  Used: ");
    append_bytes(&mut amounts, used);
    amounts.append("  Free: ");
    append_bytes(&mut amounts, free);
    amounts.append("  Total: ");
    append_bytes(&mut amounts, total);
    push_line(&mut lines, amounts);
    lines
}

/// The swap block: no line at all where there is no swap; else a blank line,
/// the heading, the bar with the share in use, and the amounts used and in
/// total.
pub open spec fn swap_lines(used: nat, total: nat) -> Seq<Seq<char>> {
    if total == 0 {
        Seq::empty()
    } else {
        seq![
            ""@,
            "\x1b[1m Swap\x1b[0m"@,
            gauge_line(used, total),
            "  Used: "@ + bytes_text(used) + "  Total: "@ + bytes_text(total),
        ]
    }
}

/// The swap block.
pub fn swap_section(used: u64, total: u64) -> (lines: Vec<String>)
    ensures
        texts(lines@) == swap_lines(used as nat, total as nat),
{
    let mut lines: Vec<String> = Vec::new();
    if total > 0 {
        push_line(&mut lines, String::from_str(""));
        push_line(&mut lines, String::from_str("\x1b[1m Swap\x1b[0m"));
        push_line(&mut lines, gauge_line_string(used, total));
        let mut amounts = String::from_str("  Used: ");
        append_bytes(&mut amounts, used);
        amounts.append("  Total: ");
        append_bytes(&mut amounts, total);
        push_line(&mut lines, amounts);
    }
    lines
}

/// The swap block is left out if and only if there is no swap. Where there
/// is swap, the block shows the share of it that is in use.
pub proof fn lemma_swap_block(used: nat, total: nat)
    ensures
        swap_lines(used, total).len() == 0 <==> total == 0,
        total > 0 ==> swap_lines(used, total).len() == 4 && swap_lines(used, total)[2]
            == gauge_line(used, total),
{
}

/// The line of a disk: its mount path in a column of fixed width, the bar and
/// the share in use, then the amounts used and in total.
pub open spec fn disk_line(disk: Disk) -> Seq<char> {
    "  "@ + fit_left(disk.mount@, MOUNT_WIDTH as nat) + " "@ + bar_text(
        disk.used(),
        disk.total as nat,
        DISK_BAR_WIDTH as nat,
    ) + " "@ + align_right(percent_text(disk.used(), disk.total as nat), 5) + "%  ("@ + bytes_text(
        disk.used(),
    ) + " / "@ + bytes_text(disk.total as nat) + ")"@
}

/// The lines of the disks, in the order of `disks`.
pub open spec fn disk_rows(disks: Seq<Disk>) -> Seq<Seq<char>> {
    Seq::new(disks.len(), |i: int| disk_line(disks[i]))
}

/// The disks block: a blank line, the heading, and a line for each disk.
pub open spec fn disk_lines(disks: Seq<Disk>) -> Seq<Seq<char>> {
    seq![""@, "\x1b[1m Disks\x1b[0m"@] + disk_rows(disks)
}

/// The line of a disk.
pub fn disk_line_string(disk: &Disk) -> (s: String)
    requires
        disk.valid(),
    ensures
        s@ == disk_line(*disk),
{
    let used = disk.total - disk.available;
    let mut s = String::from_str("  ");
    append_fitted(&mut s, disk.mount.as_str(), MOUNT_WIDTH);
    s.append(" ");
    append_bar(&mut s, used as u128, disk.total as u128, DISK_BAR_WIDTH);
    s.append(" ");
    let share = percent_string(used as u128, disk.total as u128);
    append_right(&mut s, share.as_str(), 5);
    s.append("%  (");
    append_bytes(&mut s, used);
    s.append(" / ");
    append_bytes(&mut s, disk.total);
    s.append(")");
    s
}

/// The disks block. Every disk must have a size and no more free space than
/// that.
pub fn disks_section(disks: &Vec<Disk>) -> (lines: Vec<String>)
    requires
        disks_valid(disks@),
    ensures
        texts(lines@) == disk_lines(disks@),
{
    let mut lines: Vec<String> = Vec::new();
    push_line(&mut lines, String::from_str(""));
    push_line(&mut lines, String::from_str("\x1b[1m Disks\x1b[0m"));
    let ghost head = texts(lines@);
    let mut i: usize = 0;
    while i < disks.len()
        invariant
            i <= disks.len(),
            disks_valid(disks@),
            texts(lines@) == head + disk_rows(disks@.take(i as int)),
        decreases disks.len() - i,
    {
        let line = disk_line_string(&disks[i]);
        push_line(&mut lines, line);
        i += 1;
    }
    lines
}

/// The line of an interface: its name, and what it has received and sent so
/// far.
pub open spec fn interface_line(interface: Interface) -> Seq<char> {
    "  "@ + align_left(interface.name@, INTERFACE_WIDTH as nat) + " down "@ + align_right(
        bytes_text(interface.received as nat),
        10,
    ) + "  up "@ + align_right(bytes_text(interface.transmitted as nat), 10)
}

/// The lines of the interfaces that are active, in the order of
/// `interfaces`. An interface that has neither received nor sent anything has
/// no line.
pub open spec fn interface_rows(interfaces: Seq<Interface>) -> Seq<Seq<char>>
    decreases interfaces.len(),
{
    if interfaces.len() == 0 {
        Seq::empty()
    } else {
        let before = interface_rows(interfaces.drop_last());
        if interfaces.last().active() {
            before.push(interface_line(interfaces.last()))
        } else {
            before
        }
    }
}

/// The network block: a blank line, the heading, and a line for each active
/// interface.
pub open spec fn network_lines(interfaces: Seq<Interface>) -> Seq<Seq<char>> {
    seq![""@, "\x1b[1m Network\x1b[0m"@] + interface_rows(interfaces)
}

/// The line of an interface.
pub fn interface_line_string(interface: &Interface) -> (s: String)
    ensures
        s@ == interface_line(*interface),
{
    let mut s = String::from_str("  ");
    append_left(&mut s, interface.name.as_str(), INTERFACE_WIDTH);
    s.append(" down ");
    let received = format_bytes(interface.received);
    append_right(&mut s, received.as_str(), 10);
    s.append("  up ");
    let transmitted = format_bytes(interface.transmitted);
    append_right(&mut s, transmitted.as_str(), 10);
    s
}

/// The network block.
pub fn network_section(interfaces: &Vec<Interface>) -> (lines: Vec<String>)
    ensures
        texts(lines@) == network_lines(interfaces@),
{
    let mut lines: Vec<String> = Vec::new();
    push_line(&mut lines, String::from_str(""));
    push_line(&mut lines, String::from_str("\x1b[1m Network\x1b[0m"));
    let ghost head = texts(lines@);
    let mut i: usize = 0;
    while i < interfaces.len()
        invariant
            i <= interfaces.len(),
            texts(lines@) == head + interface_rows(interfaces@.take(i as int)),
        decreases interfaces.len() - i,
    {
        assert(interfaces@.take(i as int + 1).drop_last() =~= interfaces@.take(i as int));
        if interfaces[i].is_active() {
            let line = interface_line_string(&interfaces[i]);
            push_line(&mut lines, line);
        }
        i += 1;
    }
    assert(interfaces@.take(i as int) =~= interfaces@);
    lines
}

/// Whether `row` is the line of an active interface of `interfaces`.
pub open spec fn is_active_row(interfaces: Seq<Interface>, row: Seq<char>) -> bool {
    exists|i: int|
        0 <= i < interfaces.len() && (#[trigger] interfaces[i]).active() && row == interface_line(
            interfaces[i],
        )
}

/// Every active interface has its line among the rows of the network block,
/// and every row there is the line of an active interface: an interface that
/// has neither received nor sent anything is not shown.
pub proof fn lemma_network_rows(interfaces: Seq<Interface>)
    ensures
        forall|i: int|
            0 <= i < interfaces.len() && (#[trigger] interfaces[i]).active() ==> interface_rows(
                interfaces,
            ).contains(interface_line(interfaces[i])),
        forall|k: int|
            0 <= k < interface_rows(interfaces).len() ==> is_active_row(
                interfaces,
                #[trigger] interface_rows(interfaces)[k],
            ),
        interface_rows(interfaces).len() <= interfaces.len(),
    decreases interfaces.len(),
{
    if interfaces.len() > 0 {
        let before = interfaces.drop_last();
        let rows = interface_rows(interfaces);
        let last = interfaces.last();
        lemma_network_rows(before);
        assert forall|i: int|
            0 <= i < interfaces.len() && (#[trigger] interfaces[i]).active() implies rows.contains(
            interface_line(interfaces[i]),
        ) by {
            if i < before.len() {
                let k = choose|k: int|
                    0 <= k < interface_rows(before).len() && interface_rows(before)[k]
                        == interface_line(before[i]);
                assert(rows[k] == interface_line(interfaces[i]));
            } else {
                assert(rows[rows.len() - 1] == interface_line(last));
            }
        }
        assert forall|k: int| 0 <= k < rows.len() implies is_active_row(
            interfaces,
            #[trigger] rows[k],
        ) by {
            if k < interface_rows(before).len() {
                let i = choose|i: int|
                    0 <= i < before.len() && (#[trigger] before[i]).active() && interface_rows(
                        before,
                    )[k] == interface_line(before[i]);
                assert(interfaces[i] == before[i]);
            } else {
                assert(interfaces[interfaces.len() - 1].active());
            }
        }
    }
}

/// The line of a process: load, memory, number and name.
pub open spec fn process_line(process: Process) -> Seq<char> {
    "  "@ + align_right(percent_text(process.cpu as nat, FULL_LOAD as nat), 6) + "%  "@
        + align_right(bytes_text(process.memory as nat), 7) + "  "@ + align_right(
        decimal(process.pid as nat),
        10,
    ) + "  "@ + process.name@
}

/// The lines of the processes at the positions `top`, in that order.
pub open spec fn process_rows(procs: Seq<Process>, top: Seq<int>) -> Seq<Seq<char>> {
    Seq::new(top.len(), |i: int| process_line(procs[top[i]]))
}

/// The processes block: a blank line, the heading, the names of the columns,
/// a rule, and a line for each of the five processes with the highest load,
/// highest first.
pub open spec fn process_lines(procs: Seq<Process>) -> Seq<Seq<char>> {
    seq![
        ""@,
        "\x1b[1m Top 5 Processes (CPU)\x1b[0m"@,
        "     CPU%      MEM         PID  Name"@,
        "  ---------------------------------------------"@,
    ] + process_rows(procs, ranking(procs, TOP_COUNT as nat))
}

/// The rows of the processes block are the lines of the five highest-ranking
/// processes, best first; of all processes where there are fewer than five.
pub proof fn lemma_process_block(procs: Seq<Process>)
    ensures
        process_lines(procs).len() == 4 + if procs.len() < 5 {
            procs.len()
        } else {
            5
        },
        forall|i: int|
            0 <= i < process_lines(procs).len() - 4 ==> #[trigger] process_lines(procs)[4 + i]
                == process_line(procs[ranking(procs, 5)[i]]),
{
    lemma_ranking_exists(procs, 5);
}

/// The line of a process.
pub fn process_line_string(process: &Process) -> (s: String)
    ensures
        s@ == process_line(*process),
{
    let mut s = String::from_str("  ");
    let load = percent_string(process.cpu as u128, FULL_LOAD as u128);
    append_right(&mut s, load.as_str(), 6);
    s.append("%  ");
    let memory = format_bytes(process.memory);
    append_right(&mut s, memory.as_str(), 7);
    s.append("  ");
    let pid = decimal_string(process.pid as u128);
    append_right(&mut s, pid.as_str(), 10);
    s.append("  ");
    s.append(process.name.as_str());
    s
}

/// The processes block.
pub fn processes_section(procs: &Vec<Process>) -> (lines: Vec<String>)
    ensures
        texts(lines@) == process_lines(procs@),
{
    let top = top_by_cpu(procs, TOP_COUNT);
    let mut lines: Vec<String> = Vec::new();
    push_line(&mut lines, String::from_str(""));
    push_line(&mut lines, String::from_str("\x1b[1m Top 5 Processes (CPU)\x1b[0m"));
    push_line(&mut lines, String::from_str("     CPU%      MEM         PID  Name"));
    push_line(&mut lines, String::from_str("  ---------------------------------------------"));
    let ghost head = texts(lines@);
    assert(head =~= seq![
        ""@,
        "\x1b[1m Top 5 Processes (CPU)\x1b[0m"@,
        "     CPU%      MEM         PID  Name"@,
        "  ---------------------------------------------"@,
    ]);
    let mut i: usize = 0;
    while i < top.len()
        invariant
            i <= top.len(),
            forall|k: int| 0 <= k < top.len() ==> #[trigger] top@[k] < procs.len(),
            texts(lines@) == head + process_rows(procs@, positions(top@).take(i as int)),
        decreases top.len() - i,
    {
        let line = process_line_string(&procs[top[i]]);
        push_line(&mut lines, line);
        i += 1;
    }
    lines
}

} // verus!
