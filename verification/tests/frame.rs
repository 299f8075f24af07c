use sysmon::cycle::{refresh, startup, STARTUP_SECONDS};
use sysmon::frame::{banner, clear_screen, footer, render_lines, REFRESH_SECONDS};
use sysmon::snapshot::{check_disks, FULL_LOAD};
use sysmon::{format_bytes, render, try_render, Cpu, Disk, Interface, Process, Snapshot};

const GIB: u64 = 1024 * 1024 * 1024;

struct Load {
    percent: f32,
}

fn thousandths(load: &Load) -> u32 {
    (load.percent * 1000.0).round() as u32
}

fn float_bar(value: f32, max: f32, width: usize) -> String {
    let filled = ((value / max) * width as f32) as usize;
    let empty = width.saturating_sub(filled);
    let color = if value / max > 0.8 {
        "\x1b[31m"
    } else if value / max > 0.5 {
        "\x1b[33m"
    } else {
        "\x1b[32m"
    };
    format!("{}[{}{}]\x1b[0m", color, "#".repeat(filled), ".".repeat(empty))
}

fn sample() -> (Snapshot, Vec<Load>, Vec<Load>) {
    let core_loads = vec![
        Load { percent: 12.5 },
        Load { percent: 50.0 },
        Load { percent: 87.5 },
        Load { percent: 50.0 },
    ];
    let process_loads = vec![
        Load { percent: 1.5 },
        Load { percent: 150.0 },
        Load { percent: 0.0 },
        Load { percent: 99.9 },
        Load { percent: 25.0 },
        Load { percent: 3.25 },
        Load { percent: 62.5 },
    ];
    let names = ["systemd", "cc1plus", "idle", "rustc", "Xorg", "bash", "firefox"];
    let snapshot = Snapshot {
        os_name: Some(String::from("Debian GNU/Linux")),
        kernel_version: None,
        host_name: Some(String::from("workstation")),
        uptime: 93_784,
        cpus: core_loads
            .iter()
            .map(|load| Cpu { brand: String::from("Example CPU @ 3.0GHz"), usage: thousandths(load) })
            .collect(),
        total_memory: 16 * GIB,
        used_memory: 4 * GIB,
        total_swap: 2 * GIB,
        used_swap: GIB / 2,
        disks: vec![
            Disk { mount: String::from("/"), total: 100 * GIB, available: 25 * GIB },
            Disk { mount: String::from("/home"), total: 400 * GIB, available: 350 * GIB },
        ],
        interfaces: vec![
            Interface { name: String::from("lo"), received: 0, transmitted: 0 },
            Interface { name: String::from("eth0"), received: 123_456_789, transmitted: 1536 },
        ],
        processes: process_loads
            .iter()
            .enumerate()
            .map(|(i, load)| Process {
                pid: 100 + i as u32,
                name: String::from(names[i]),
                cpu: thousandths(load),
                memory: (i as u64 + 1) * 3_000_000,
            })
            .collect(),
    };
    (snapshot, core_loads, process_loads)
}

fn expected_frame(snapshot: &Snapshot, core_loads: &[Load], process_loads: &[Load]) -> String {
    let mut out = String::from("\x1B[2J\x1B[1;1H");
    let mut line = |text: String| {
        out.push_str(&text);
        out.push('\n');
    };
    line(String::from("\x1b[36m+-----------------------------------------------------+"));
    line(String::from("|           System Monitor - Rust                     |"));
    line(String::from("+-----------------------------------------------------+\x1b[0m"));
    line(String::from("\n\x1b[1m System\x1b[0m"));
    line(format!("  OS:       {}", snapshot.os_name.clone().unwrap_or(String::from("Unknown"))));
    line(format!("  Kernel:   {}", snapshot.kernel_version.clone().unwrap_or(String::from("?"))));
    line(format!("  Host:     {}", snapshot.host_name.clone().unwrap_or(String::from("?"))));
    let uptime = snapshot.uptime;
    line(format!("  Uptime:   {}h {}m {}s", uptime / 3600, (uptime % 3600) / 60, uptime % 60));
    line(String::from("\n\x1b[1m CPU\x1b[0m"));
    line(format!("  Model:    {}", snapshot.cpus[0].brand));
    line(format!("  Cores:    {}", snapshot.cpus.len()));
    for (i, load) in core_loads.iter().enumerate() {
        let usage = load.percent;
        line(format!("  Core {:>2}: {} {:>5.1}%", i, float_bar(usage, 100.0, 25), usage));
    }
    let total: f32 =
        core_loads.iter().map(|load| load.percent).sum::<f32>() / core_loads.len() as f32;
    line(format!("  \x1b[1mTotal:   {} {:.1}%\x1b[0m", float_bar(total, 100.0, 25), total));
    line(String::from("\n\x1b[1m Memory\x1b[0m"));
    let memory = snapshot.used_memory as f32 / snapshot.total_memory as f32 * 100.0;
    line(format!("  {} {:.1}%", float_bar(memory, 100.0, 35), memory));
    line(format!(
        "  Used: {}  Free: {}  Total: {}",
        format_bytes(snapshot.used_memory),
        format_bytes(snapshot.total_memory - snapshot.used_memory),
        format_bytes(snapshot.total_memory)
    ));
    if snapshot.total_swap > 0 {
        line(String::from("\n\x1b[1m Swap\x1b[0m"));
        let swap = snapshot.used_swap as f32 / snapshot.total_swap as f32 * 100.0;
        line(format!("  {} {:.1}%", float_bar(swap, 100.0, 35), swap));
        line(format!(
            "  Used: {}  Total: {}",
            format_bytes(snapshot.used_swap),
            format_bytes(snapshot.total_swap)
        ));
    }
    line(String::from("\n\x1b[1m Disks\x1b[0m"));
    for disk in &snapshot.disks {
        let used = disk.total - disk.available;
        let share = used as f32 / disk.total as f32 * 100.0;
        line(format!(
            "  {:15} {} {:>5.1}%  ({} / {})",
            disk.mount,
            float_bar(share, 100.0, 20),
            share,
            format_bytes(used),
            format_bytes(disk.total)
        ));
    }
    line(String::from("\n\x1b[1m Network\x1b[0m"));
    for interface in &snapshot.interfaces {
        if interface.received > 0 || interface.transmitted > 0 {
            line(format!(
                "  {:12} down {:>10}  up {:>10}",
                interface.name,
                format_bytes(interface.received),
                format_bytes(interface.transmitted)
            ));
        }
    }
    line(String::from("\n\x1b[1m Top 5 Processes (CPU)\x1b[0m"));
    let mut order: Vec<usize> = (0..process_loads.len()).collect();
    order.sort_by(|a, b| {
        process_loads[*b].percent.partial_cmp(&process_loads[*a].percent).unwrap()
    });
    line(format!("  {:>7}  {:>7}  {:>10}  Name", "CPU%", "MEM", "PID"));
    line(format!("  {}", "-".repeat(45)));
    for i in order.iter().take(5) {
        let process = &snapshot.processes[*i];
        line(format!(
            "  {:>6.1}%  {:>7}  {:>10}  {}",
            process_loads[*i].percent,
            format_bytes(process.memory),
            process.pid,
            process.name
        ));
    }
    line(String::from("\n\x1b[90m  Refreshing every 2 seconds... (Ctrl+C to exit)\x1b[0m"));
    out
}

#[test]
fn frame_agrees_with_floating_point_formatting() {
    let (snapshot, core_loads, process_loads) = sample();
    assert_eq!(render(&snapshot), expected_frame(&snapshot, &core_loads, &process_loads));
}

#[test]
fn frame_without_swap_and_traffic_agrees_with_floating_point_formatting() {
    let (mut snapshot, core_loads, process_loads) = sample();
    snapshot.total_swap = 0;
    snapshot.used_swap = 0;
    snapshot.interfaces.truncate(1);
    snapshot.disks.clear();
    snapshot.os_name = None;
    snapshot.host_name = None;
    let text = render(&snapshot);
    assert_eq!(text, expected_frame(&snapshot, &core_loads, &process_loads));
    assert!(!text.contains("Swap"));
}

#[test]
fn frame_starts_by_clearing_the_screen() {
    let (snapshot, _, _) = sample();
    assert_eq!(clear_screen(), "\x1B[2J\x1B[1;1H");
    assert!(render(&snapshot).starts_with("\x1B[2J\x1B[1;1H\x1b[36m+---"));
}

#[test]
fn frame_text_is_its_lines_each_with_a_line_feed() {
    let (snapshot, _, _) = sample();
    let lines = render_lines(&snapshot);
    let mut text = String::from(clear_screen());
    for line in &lines {
        text.push_str(line);
        text.push('\n');
    }
    assert_eq!(render(&snapshot), text);
    assert_eq!(lines.len(), 3 + 6 + 9 + 4 + 4 + 4 + 3 + 9 + 2);
}

#[test]
fn banner_and_footer() {
    assert_eq!(
        banner(),
        vec![
            "\x1b[36m+-----------------------------------------------------+",
            "|           System Monitor - Rust                     |",
            "+-----------------------------------------------------+\x1b[0m",
        ]
    );
    assert_eq!(
        footer(),
        vec!["", "\x1b[90m  Refreshing every 2 seconds... (Ctrl+C to exit)\x1b[0m"]
    );
}

#[test]
fn snapshot_without_cores_cannot_be_shown() {
    let (mut snapshot, _, _) = sample();
    assert!(snapshot.is_valid());
    snapshot.cpus.clear();
    assert!(!snapshot.is_valid());
    assert_eq!(try_render(&snapshot), None);
}

#[test]
fn snapshot_without_memory_cannot_be_shown() {
    let (mut snapshot, _, _) = sample();
    snapshot.total_memory = 0;
    assert!(!snapshot.is_valid());
    assert_eq!(try_render(&snapshot), None);
}

#[test]
fn snapshot_with_a_disk_of_no_size_cannot_be_shown() {
    let (mut snapshot, _, _) = sample();
    snapshot.disks.push(Disk { mount: String::from("/proc"), total: 0, available: 0 });
    assert!(!snapshot.disks[2].is_valid());
    assert!(!check_disks(&snapshot.disks));
    assert!(!snapshot.is_valid());
    assert_eq!(try_render(&snapshot), None);
}

#[test]
fn snapshot_with_more_free_space_than_space_cannot_be_shown() {
    let (mut snapshot, _, _) = sample();
    snapshot.disks[0].available = snapshot.disks[0].total + 1;
    assert!(!snapshot.disks[0].is_valid());
    assert!(snapshot.disks[1].is_valid());
    assert!(!snapshot.is_valid());
    assert_eq!(try_render(&snapshot), None);
}

#[test]
fn snapshot_that_can_be_shown_is_rendered() {
    let (snapshot, _, _) = sample();
    assert_eq!(try_render(&snapshot), Some(render(&snapshot)));
}

#[test]
fn interface_is_active_once_it_has_traffic() {
    let (snapshot, _, _) = sample();
    assert!(!snapshot.interfaces[0].is_active());
    assert!(snapshot.interfaces[1].is_active());
    assert!(Interface { name: String::new(), received: 0, transmitted: 1 }.is_active());
    assert!(Interface { name: String::new(), received: 1, transmitted: 0 }.is_active());
}

#[test]
fn full_load_is_one_hundred_percent_in_thousandths() {
    assert_eq!(FULL_LOAD, 100_000);
}

#[test]
fn startup_announces_and_rests_one_second() {
    let step = startup();
    assert_eq!(
        step.text,
        "\x1b[36m+======================================+\n\
         |     System Monitor in Rust           |\n\
         +======================================+\x1b[0m\n\
         Starting... (Ctrl+C to exit)\n\n"
    );
    assert_eq!(step.pause_seconds, 1);
    assert_eq!(STARTUP_SECONDS, 1);
}

#[test]
fn refresh_shows_the_frame_and_rests_two_seconds() {
    let (snapshot, _, _) = sample();
    let step = refresh(&snapshot);
    assert_eq!(step.text, render(&snapshot));
    assert_eq!(step.pause_seconds, 2);
    assert_eq!(REFRESH_SECONDS, 2);
}
