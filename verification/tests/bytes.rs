use sysmon::bytes::{append_bytes, Unit, GB, KB, MB};
use sysmon::format_bytes;

#[test]
fn bytes_below_one_kb_are_whole_numbers() {
    assert_eq!(format_bytes(0), "0 B");
    assert_eq!(format_bytes(1), "1 B");
    assert_eq!(format_bytes(512), "512 B");
    assert_eq!(format_bytes(1023), "1023 B");
}

#[test]
fn bytes_at_unit_boundaries() {
    assert_eq!(format_bytes(1024), "1.00 KB");
    assert_eq!(format_bytes(1024 * 1024), "1.00 MB");
    assert_eq!(format_bytes(1024 * 1024 * 1024), "1.00 GB");
    assert_eq!(format_bytes(1024 * 1024 - 1), "1024.00 KB");
    assert_eq!(format_bytes(1024 * 1024 * 1024 - 1), "1024.00 MB");
}

#[test]
fn bytes_round_to_nearest_hundredth_ties_to_even() {
    assert_eq!(format_bytes(1536), "1.50 KB");
    assert_eq!(format_bytes(1152), "1.12 KB");
    assert_eq!(format_bytes(1408), "1.38 KB");
    assert_eq!(format_bytes(1029), "1.00 KB");
    assert_eq!(format_bytes(1030), "1.01 KB");
}

#[test]
fn bytes_of_the_largest_count() {
    assert_eq!(format_bytes(u64::MAX), "17179869184.00 GB");
}

#[test]
fn bytes_agree_with_floating_point_formatting() {
    let mut n: u64 = 1;
    while n < (1u64 << 53) {
        for delta in 0..300u64 {
            let bytes = n + delta * 37;
            let expected = if bytes >= 1 << 30 {
                format!("{:.2} GB", bytes as f64 / 1073741824.0)
            } else if bytes >= 1 << 20 {
                format!("{:.2} MB", bytes as f64 / 1048576.0)
            } else if bytes >= 1 << 10 {
                format!("{:.2} KB", bytes as f64 / 1024.0)
            } else {
                format!("{} B", bytes)
            };
            assert_eq!(format_bytes(bytes), expected);
        }
        n = n * 3 / 2 + 1;
    }
}

fn shown(bytes: u64) -> (u32, u128) {
    let text = format_bytes(bytes);
    let (number, unit) = text.split_once(' ').unwrap();
    let rank = match unit {
        "B" => 0,
        "KB" => 1,
        "MB" => 2,
        "GB" => 3,
        _ => panic!("unknown unit"),
    };
    let amount = if rank == 0 {
        number.parse::<u128>().unwrap()
    } else {
        let (whole, part) = number.split_once('.').unwrap();
        assert_eq!(part.len(), 2);
        whole.parse::<u128>().unwrap() * 100 + part.parse::<u128>().unwrap()
    };
    (rank, amount)
}

#[test]
fn bytes_never_go_down_as_the_count_goes_up() {
    let mut counts: Vec<u64> = (0..5000).collect();
    for shift in 9..64 {
        let edge = 1u64 << shift;
        for delta in 0..40 {
            counts.push(edge - 20 + delta);
        }
    }
    counts.push(u64::MAX - 1);
    counts.push(u64::MAX);
    counts.sort();
    let mut before = shown(counts[0]);
    for count in counts {
        let now = shown(count);
        assert!(before <= now);
        before = now;
    }
    assert!(shown(1023) < shown(1024));
    assert!(shown(1024 * 1024 - 1) < shown(1024 * 1024));
    assert_eq!(shown(1023), (0, 1023));
    assert_eq!(shown(1024), (1, 100));
    assert_eq!(shown(1024 * 1024 - 1), (1, 102_400));
}

#[test]
fn bytes_in_kb_stay_between_one_and_1024() {
    for bytes in 1024..(1024 * 1024u64) {
        if bytes % 97 != 0 && bytes > 2000 && bytes < 1024 * 1024 - 10 {
            continue;
        }
        let text = format_bytes(bytes);
        assert!(text.ends_with(" KB"));
        let (rank, amount) = shown(bytes);
        assert_eq!(rank, 1);
        assert!(amount >= 100);
        assert!(amount <= 102_400);
        assert_eq!(amount < 102_400, bytes + 5 < 1024 * 1024);
    }
}

#[test]
fn unit_is_the_largest_that_fits() {
    assert_eq!(Unit::of(0), Unit::Byte);
    assert_eq!(Unit::of(1023), Unit::Byte);
    assert_eq!(Unit::of(1024), Unit::Kilo);
    assert_eq!(Unit::of(1024 * 1024 - 1), Unit::Kilo);
    assert_eq!(Unit::of(1024 * 1024), Unit::Mega);
    assert_eq!(Unit::of(1024 * 1024 * 1024 - 1), Unit::Mega);
    assert_eq!(Unit::of(1024 * 1024 * 1024), Unit::Giga);
    assert_eq!(Unit::of(u64::MAX), Unit::Giga);
}

#[test]
fn unit_sizes_and_names() {
    assert_eq!(Unit::Byte.size(), 1);
    assert_eq!(Unit::Kilo.size(), 1024);
    assert_eq!(Unit::Mega.size(), 1024 * 1024);
    assert_eq!(Unit::Giga.size(), 1024 * 1024 * 1024);
    assert_eq!(KB, 1024);
    assert_eq!(MB, 1024 * KB);
    assert_eq!(GB, 1024 * MB);
    assert_eq!(Unit::Byte.suffix(), " B");
    assert_eq!(Unit::Kilo.suffix(), " KB");
    assert_eq!(Unit::Mega.suffix(), " MB");
    assert_eq!(Unit::Giga.suffix(), " GB");
}

#[test]
fn append_bytes_keeps_what_stands_before() {
    let mut s = String::from("Used: ");
    append_bytes(&mut s, 3 * 1024 * 1024 / 2);
    assert_eq!(s, "Used: 1.50 MB");
}
