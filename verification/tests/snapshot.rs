use sysguard_monitor::{
    get_all_metrics, get_cpu_metrics, get_disk_metrics, get_memory_metrics, get_top_processes,
    Disks, Double, LoadAverage, Percentage, System, CPU_SETTLE_MILLIS,
};

fn load_of_host() -> LoadAverage {
    let averages = System::load_average();
    LoadAverage {
        one: Double { bits: averages.one.to_bits() },
        five: Double { bits: averages.five.to_bits() },
        fifteen: Double { bits: averages.fifteen.to_bits() },
    }
}

fn refreshed() -> System {
    let mut sys = System::new_all();
    sys.refresh_all();
    let started = std::time::Instant::now();
    while (started.elapsed().as_millis() as u64) < CPU_SETTLE_MILLIS {
        std::hint::spin_loop();
    }
    sys.refresh_cpu();
    sys
}

#[test]
fn settle_time_is_200_milliseconds() {
    assert_eq!(CPU_SETTLE_MILLIS, 200);
}

#[test]
fn snapshot_with_limit_zero_has_no_processes_and_all_other_parts() {
    let sys = refreshed();
    let disks = Disks::new_with_refreshed_list();
    let load = load_of_host();
    let m = get_all_metrics(&sys, &disks, load, 0).unwrap();
    assert!(m.top_processes.is_empty());
    assert_eq!(m.cpu, get_cpu_metrics(&sys, load));
    assert_eq!(Some(m.memory), get_memory_metrics(&sys));
    assert_eq!(Some(m.disk), get_disk_metrics(&disks));
    assert_eq!(m.cpu.cores_logical, sys.cpus().len());
    assert!(m.cpu.cores_logical > 0);
    assert_eq!(m.memory.total_mb, sys.total_memory() / 1024 / 1024);
    assert!(m.memory.total_mb > 0);
}

#[test]
fn snapshot_is_put_together_from_the_four_parts() {
    let sys = refreshed();
    let disks = Disks::new_with_refreshed_list();
    let load = load_of_host();
    let m = get_all_metrics(&sys, &disks, load, 5).unwrap();
    assert_eq!(m.cpu, get_cpu_metrics(&sys, load));
    assert_eq!(Some(m.memory), get_memory_metrics(&sys));
    assert_eq!(Some(m.disk), get_disk_metrics(&disks));
    assert_eq!(Some(m.top_processes.clone()), get_top_processes(&sys, 5));
    assert_eq!(m.top_processes.len(), sys.processes().len().min(5));
    assert_eq!(m.cpu.load_avg_1, load.one);
    assert_eq!(m.cpu.load_avg_5, load.five);
    assert_eq!(m.cpu.load_avg_15, load.fifteen);
}

#[test]
fn snapshot_length_follows_the_limit() {
    let sys = refreshed();
    let disks = Disks::new();
    let count = sys.processes().len();
    for limit in [0usize, 1, 2, count, count + 1] {
        let m = get_all_metrics(&sys, &disks, load_of_host(), limit).unwrap();
        assert_eq!(m.top_processes.len(), limit.min(count));
        for pair in m.top_processes.windows(2) {
            assert!(
                f32::from_bits(pair[0].cpu_percent.bits) >= f32::from_bits(pair[1].cpu_percent.bits)
            );
        }
    }
}

#[test]
fn snapshot_of_states_that_were_never_refreshed() {
    let sys = System::new();
    let disks = Disks::new();
    let load = LoadAverage {
        one: Double { bits: 0 },
        five: Double { bits: 0 },
        fifteen: Double { bits: 0 },
    };
    let m = get_all_metrics(&sys, &disks, load, 5).unwrap();
    assert!(m.top_processes.is_empty());
    assert_eq!(m.disk.percent, Percentage::Zero);
    assert_eq!(m.memory.percent, Percentage::Ratio { part: 0, whole: 0 });
    assert_eq!(m.cpu.cores_logical, 0);
}
