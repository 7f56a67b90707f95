use sysguard_monitor::{
    can_rank, get_top_processes, rank_processes, ProcessInfo, ProcessSample, Single, System,
};

fn sample(pid: u32, name: &str, cpu: f32, memory: u64) -> ProcessSample {
    ProcessSample { pid, name: name.to_string(), cpu_usage: Single { bits: cpu.to_bits() }, memory }
}

fn info(pid: u32, name: &str, cpu: f32, memory_mb: u64) -> ProcessInfo {
    ProcessInfo { pid, name: name.to_string(), cpu_percent: Single { bits: cpu.to_bits() }, memory_mb }
}

fn pids(list: &[ProcessInfo]) -> Vec<u32> {
    list.iter().map(|p| p.pid).collect()
}

fn cpu_of(p: &ProcessInfo) -> f32 {
    f32::from_bits(p.cpu_percent.bits)
}

/// The ranking as the standard library's stable sort gives it.
fn reference(samples: &[ProcessSample], limit: usize) -> Vec<ProcessInfo> {
    let mut list: Vec<ProcessInfo> = samples
        .iter()
        .map(|s| ProcessInfo {
            pid: s.pid,
            name: s.name.clone(),
            cpu_percent: s.cpu_usage,
            memory_mb: s.memory / 1024 / 1024,
        })
        .collect();
    list.sort_by(|a, b| cpu_of(b).partial_cmp(&cpu_of(a)).unwrap());
    list.truncate(limit);
    list
}

fn table() -> Vec<ProcessSample> {
    vec![
        sample(10, "idle", 0.0, 4 * 1_048_576),
        sample(11, "editor", 12.5, 300 * 1_048_576 + 17),
        sample(12, "compiler", 250.0, 2_048 * 1_048_576),
        sample(13, "shell", 0.5, 1_048_575),
        sample(14, "browser", 12.5, 900 * 1_048_576),
        sample(15, "daemon", 0.0, 0),
    ]
}

#[test]
fn into_info_converts_memory_to_megabytes() {
    let got = sample(7, "worker", 42.0, 5 * 1_048_576 + 1_048_575).into_info();
    assert_eq!(got, info(7, "worker", 42.0, 5));
    assert_eq!(got.name, "worker");
    assert_eq!(cpu_of(&got), 42.0);
}

#[test]
fn ranking_is_descending_by_processor_usage() {
    let top = rank_processes(table(), 6);
    assert_eq!(pids(&top), vec![12, 11, 14, 13, 10, 15]);
    assert_eq!(
        top,
        vec![
            info(12, "compiler", 250.0, 2_048),
            info(11, "editor", 12.5, 300),
            info(14, "browser", 12.5, 900),
            info(13, "shell", 0.5, 0),
            info(10, "idle", 0.0, 4),
            info(15, "daemon", 0.0, 0),
        ]
    );
    for pair in top.windows(2) {
        assert!(cpu_of(&pair[0]) >= cpu_of(&pair[1]));
    }
}

#[test]
fn ranking_keeps_ties_in_table_order() {
    let forward = rank_processes(
        vec![sample(1, "a", 5.0, 0), sample(2, "b", 5.0, 0), sample(3, "c", 5.0, 0)],
        3,
    );
    assert_eq!(pids(&forward), vec![1, 2, 3]);
    let backward = rank_processes(
        vec![sample(3, "c", 5.0, 0), sample(2, "b", 5.0, 0), sample(1, "a", 5.0, 0)],
        3,
    );
    assert_eq!(pids(&backward), vec![3, 2, 1]);
    let mixed = rank_processes(
        vec![
            sample(1, "a", 1.0, 0),
            sample(2, "b", 9.0, 0),
            sample(3, "c", 1.0, 0),
            sample(4, "d", 9.0, 0),
            sample(5, "e", 1.0, 0),
        ],
        5,
    );
    assert_eq!(pids(&mixed), vec![2, 4, 1, 3, 5]);
}

#[test]
fn ranking_a_ranking_again_moves_nothing() {
    let once = rank_processes(table(), 6);
    let again: Vec<ProcessSample> = once
        .iter()
        .map(|p| ProcessSample {
            pid: p.pid,
            name: p.name.clone(),
            cpu_usage: p.cpu_percent,
            memory: p.memory_mb * 1_048_576,
        })
        .collect();
    let twice = rank_processes(again, 6);
    assert_eq!(pids(&twice), pids(&once));
    assert_eq!(pids(&twice), vec![12, 11, 14, 13, 10, 15]);
}

#[test]
fn ranking_treats_both_zeros_as_equal() {
    let top = rank_processes(
        vec![sample(1, "minus", -0.0, 0), sample(2, "plus", 0.0, 0), sample(3, "minus", -0.0, 0)],
        3,
    );
    assert_eq!(pids(&top), vec![1, 2, 3]);
}

#[test]
fn limit_cuts_the_ranking() {
    assert_eq!(pids(&rank_processes(table(), 1)), vec![12]);
    assert_eq!(pids(&rank_processes(table(), 2)), vec![12, 11]);
    assert_eq!(pids(&rank_processes(table(), 3)), vec![12, 11, 14]);
    assert_eq!(pids(&rank_processes(table(), 5)), vec![12, 11, 14, 13, 10]);
}

#[test]
fn limit_of_zero_gives_an_empty_list() {
    assert_eq!(rank_processes(table(), 0), Vec::new());
    assert_eq!(rank_processes(Vec::new(), 0), Vec::new());
}

#[test]
fn limit_above_the_table_gives_the_whole_table() {
    assert_eq!(rank_processes(table(), 7).len(), 6);
    assert_eq!(rank_processes(table(), usize::MAX).len(), 6);
    assert_eq!(pids(&rank_processes(table(), 1000)), vec![12, 11, 14, 13, 10, 15]);
    assert_eq!(rank_processes(Vec::new(), 5), Vec::new());
}

#[test]
fn length_is_the_limit_where_the_table_has_that_many() {
    for limit in 0..=6 {
        assert_eq!(rank_processes(table(), limit).len(), limit);
    }
    for limit in 7..10 {
        assert_eq!(rank_processes(table(), limit).len(), 6);
    }
}

#[test]
fn ranking_agrees_with_a_stable_sort() {
    let mut samples: Vec<ProcessSample> = Vec::new();
    let mut seed: u32 = 12_345;
    for pid in 0..200u32 {
        seed = seed.wrapping_mul(1_103_515_245).wrapping_add(12_345);
        let cpu = ((seed >> 16) % 17) as f32 * 6.25;
        samples.push(sample(pid, "p", cpu, (seed as u64) * 4_099));
    }
    for limit in [0usize, 1, 5, 50, 199, 200, 201] {
        assert_eq!(rank_processes(samples.clone(), limit), reference(&samples, limit));
    }
}

#[test]
fn ranking_orders_negative_and_infinite_usage() {
    let top = rank_processes(
        vec![
            sample(1, "a", -3.0, 0),
            sample(2, "b", f32::INFINITY, 0),
            sample(3, "c", 0.0, 0),
            sample(4, "d", f32::NEG_INFINITY, 0),
            sample(5, "e", 1.0e-40, 0),
        ],
        5,
    );
    assert_eq!(pids(&top), vec![2, 5, 3, 1, 4]);
}

#[test]
fn tables_without_nan_can_be_ranked() {
    assert!(can_rank(&table()));
    assert!(can_rank(&Vec::new()));
    assert!(can_rank(&vec![sample(1, "a", f32::INFINITY, 0), sample(2, "b", -0.0, 0)]));
}

#[test]
fn a_table_with_nan_and_another_entry_cannot_be_ranked() {
    assert!(!can_rank(&vec![sample(1, "a", f32::NAN, 0), sample(2, "b", 1.0, 0)]));
    assert!(!can_rank(&vec![sample(1, "a", 1.0, 0), sample(2, "b", f32::NAN, 0)]));
    assert!(!can_rank(&vec![
        sample(1, "a", 1.0, 0),
        sample(2, "b", 2.0, 0),
        sample(3, "c", -f32::NAN, 0)
    ]));
}

#[test]
fn a_single_entry_needs_no_comparison() {
    let only = vec![sample(1, "a", f32::NAN, 3 * 1_048_576)];
    assert!(can_rank(&only));
    let top = rank_processes(only.clone(), 5);
    assert_eq!(top.len(), 1);
    assert_eq!(top[0].pid, 1);
    assert_eq!(top[0].memory_mb, 3);
    assert!(cpu_of(&top[0]).is_nan());
    assert_eq!(pids(&reference(&only, 5)), vec![1]);
}

#[test]
fn top_processes_of_a_state_without_processes() {
    let sys = System::new();
    assert_eq!(get_top_processes(&sys, 5), Some(Vec::new()));
    assert_eq!(get_top_processes(&sys, 0), Some(Vec::new()));
}

#[test]
fn top_processes_of_a_live_table() {
    let mut sys = System::new();
    sys.refresh_processes();
    let count = sys.processes().len();
    assert!(count > 0);
    for limit in [0usize, 1, 3, count, count + 4] {
        let top = get_top_processes(&sys, limit).unwrap();
        assert_eq!(top.len(), limit.min(count));
        for pair in top.windows(2) {
            assert!(cpu_of(&pair[0]) >= cpu_of(&pair[1]));
        }
        for entry in &top {
            let process = sys.process(sysinfo::Pid::from_u32(entry.pid)).unwrap();
            assert_eq!(entry.name, process.name());
            assert_eq!(entry.cpu_percent.bits, process.cpu_usage().to_bits());
            assert_eq!(entry.memory_mb, process.memory() / 1024 / 1024);
        }
    }
}

#[test]
fn top_processes_agree_with_a_stable_sort_of_the_walk() {
    let mut sys = System::new();
    sys.refresh_processes();
    let walk: Vec<ProcessSample> = sys
        .processes()
        .iter()
        .map(|(pid, process)| ProcessSample {
            pid: pid.as_u32(),
            name: process.name().to_string(),
            cpu_usage: Single { bits: process.cpu_usage().to_bits() },
            memory: process.memory(),
        })
        .collect();
    for limit in [0usize, 5, walk.len(), walk.len() + 1] {
        assert_eq!(get_top_processes(&sys, limit).unwrap(), reference(&walk, limit));
    }
}

#[test]
fn walk_order_changes_ties_only() {
    let forward = table();
    let mut backward = table();
    backward.reverse();
    let mut rotated = table();
    rotated.rotate_left(2);
    for limit in 0..=7 {
        let a = rank_processes(forward.clone(), limit);
        let b = rank_processes(backward.clone(), limit);
        let c = rank_processes(rotated.clone(), limit);
        let usage = |list: &[ProcessInfo]| list.iter().map(cpu_of).collect::<Vec<f32>>();
        assert_eq!(usage(&a), usage(&b));
        assert_eq!(usage(&a), usage(&c));
        assert_eq!(a.len(), b.len());
    }
    assert_eq!(pids(&rank_processes(backward, 6)), vec![12, 14, 11, 13, 15, 10]);
}
