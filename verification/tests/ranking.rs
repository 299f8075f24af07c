use sysmon::ranking::{top_by_cpu, TOP_COUNT};
use sysmon::Process;

fn process(pid: u32, cpu: u32) -> Process {
    Process { pid, name: format!("p{}", pid), cpu, memory: 0 }
}

fn with_loads(loads: &[u32]) -> Vec<Process> {
    let mut procs = Vec::new();
    for (i, cpu) in loads.iter().enumerate() {
        procs.push(process(i as u32, *cpu));
    }
    procs
}

#[test]
fn top_count_is_five() {
    assert_eq!(TOP_COUNT, 5);
}

#[test]
fn top_five_of_distinct_loads_are_the_five_highest_in_descending_order() {
    let procs = with_loads(&[3_000, 91_000, 500, 42_000, 7_000, 64_000, 12_000, 1, 88_000]);
    assert_eq!(top_by_cpu(&procs, 5), vec![1, 8, 5, 3, 6]);
}

#[test]
fn top_of_exactly_five_lists_all_of_them() {
    let procs = with_loads(&[10, 50, 30, 20, 40]);
    assert_eq!(top_by_cpu(&procs, 5), vec![1, 4, 2, 3, 0]);
}

#[test]
fn top_of_fewer_than_five_lists_all_of_them() {
    let procs = with_loads(&[10, 30, 20]);
    assert_eq!(top_by_cpu(&procs, 5), vec![1, 2, 0]);
}

#[test]
fn top_of_no_processes_is_empty() {
    let procs: Vec<Process> = Vec::new();
    assert_eq!(top_by_cpu(&procs, 5), Vec::<usize>::new());
}

#[test]
fn top_of_count_zero_is_empty() {
    let procs = with_loads(&[10, 30, 20]);
    assert_eq!(top_by_cpu(&procs, 0), Vec::<usize>::new());
}

#[test]
fn equal_loads_keep_their_order() {
    let procs = with_loads(&[5, 9, 5, 9, 5, 9, 0]);
    assert_eq!(top_by_cpu(&procs, 5), vec![1, 3, 5, 0, 2]);
    let procs = with_loads(&[0, 0, 0, 0, 0, 0]);
    assert_eq!(top_by_cpu(&procs, 5), vec![0, 1, 2, 3, 4]);
}

#[test]
fn top_agrees_with_a_stable_sort() {
    let mut seed: u32 = 12345;
    for round in 0..200 {
        let len = (round % 23) as usize;
        let mut loads = Vec::new();
        for _ in 0..len {
            seed = seed.wrapping_mul(1_103_515_245).wrapping_add(12_345);
            loads.push((seed >> 16) % 8);
        }
        let procs = with_loads(&loads);
        let mut order: Vec<usize> = (0..len).collect();
        order.sort_by(|a, b| procs[*b].cpu.cmp(&procs[*a].cpu));
        for count in [0usize, 1, 5, 30] {
            let expected: Vec<usize> = order.iter().take(count).cloned().collect();
            assert_eq!(top_by_cpu(&procs, count), expected);
        }
    }
}
