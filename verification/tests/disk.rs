use sysguard_monitor::{
    aggregate_disks, disk_metrics, get_disk_metrics, sum_disk_space, DiskMetrics, DiskSpace, Disks,
    Percentage,
};

const GB: u64 = 1_073_741_824;

fn percent_value(p: Percentage) -> f64 {
    match p {
        Percentage::Zero => 0.0,
        Percentage::Ratio { part, whole } => (part as f64 / whole as f64) * 100.0,
    }
}

#[test]
fn disk_metrics_of_a_half_full_disk() {
    let m = disk_metrics(100 * GB, 50 * GB);
    assert_eq!(
        m,
        DiskMetrics {
            total_gb: 100,
            used_gb: 50,
            free_gb: 50,
            percent: Percentage::Ratio { part: 50 * GB, whole: 100 * GB },
        }
    );
    assert_eq!(percent_value(m.percent), 50.0);
}

#[test]
fn disk_used_is_total_less_available() {
    let m = disk_metrics(500_107_862_016, 123_456_789_012);
    assert_eq!(m.total_gb, 465);
    assert_eq!(m.free_gb, 114);
    assert_eq!(m.used_gb, (500_107_862_016u64 - 123_456_789_012) / GB);
    assert_eq!(m.used_gb, 350);
    assert_eq!(
        m.percent,
        Percentage::Ratio { part: 500_107_862_016 - 123_456_789_012, whole: 500_107_862_016 }
    );
}

#[test]
fn disk_used_is_clamped_to_zero() {
    let m = disk_metrics(10 * GB, 12 * GB);
    assert_eq!(m.total_gb, 10);
    assert_eq!(m.used_gb, 0);
    assert_eq!(m.free_gb, 12);
    assert_eq!(m.percent, Percentage::Ratio { part: 0, whole: 10 * GB });
    assert_eq!(percent_value(m.percent), 0.0);
}

#[test]
fn disk_percent_is_zero_and_no_nan_without_space() {
    let m = disk_metrics(0, 0);
    assert_eq!(m.percent, Percentage::Zero);
    assert_eq!(percent_value(m.percent), 0.0);
    assert!(!percent_value(m.percent).is_nan());
    assert_eq!((m.total_gb, m.used_gb, m.free_gb), (0, 0, 0));

    let odd = disk_metrics(0, 5 * GB);
    assert_eq!(odd.percent, Percentage::Zero);
    assert_eq!(odd.used_gb, 0);
}

#[test]
fn disks_without_space_have_percent_zero() {
    let disks = vec![DiskSpace { total: 0, available: 0 }, DiskSpace { total: 0, available: 0 }];
    let m = aggregate_disks(&disks).unwrap();
    assert_eq!(m.percent, Percentage::Zero);
    assert_eq!(m, DiskMetrics { total_gb: 0, used_gb: 0, free_gb: 0, percent: Percentage::Zero });
}

#[test]
fn disk_percent_lies_between_0_and_100() {
    let cases = [
        (0u64, 0u64),
        (1, 0),
        (1, 1),
        (1, 2),
        (10 * GB, 3 * GB),
        (u64::MAX, 0),
        (u64::MAX, u64::MAX),
        (5, u64::MAX),
    ];
    for (total, available) in cases {
        let value = percent_value(disk_metrics(total, available).percent);
        assert!(value >= 0.0 && value <= 100.0, "{} of {}", available, total);
    }
}

#[test]
fn used_and_free_gigabytes_add_up_to_total() {
    let cases =
        [(0u64, 0u64), (100 * GB, 40 * GB), (7 * GB, 7 * GB), (3 * GB + 5, 2 * GB + 2), (GB, 0)];
    for (total, available) in cases {
        assert!(available <= total);
        let m = disk_metrics(total, available);
        assert_eq!(m.used_gb + m.free_gb, m.total_gb, "{} of {}", available, total);
    }
}

#[test]
fn used_and_free_gigabytes_fall_one_short_when_remainders_add_to_a_gigabyte() {
    let m = disk_metrics(GB, GB / 2);
    assert_eq!((m.total_gb, m.used_gb, m.free_gb), (1, 0, 0));
    let n = disk_metrics(10 * GB, 3 * GB + 1);
    assert_eq!((n.total_gb, n.used_gb, n.free_gb), (10, 6, 3));
    assert_eq!(n.used_gb + n.free_gb + 1, n.total_gb);
}

#[test]
fn sums_run_over_all_disks() {
    let disks = vec![
        DiskSpace { total: 100, available: 40 },
        DiskSpace { total: 250, available: 10 },
        DiskSpace { total: 7, available: 7 },
    ];
    assert_eq!(sum_disk_space(&disks), Some((357, 57)));
    assert_eq!(sum_disk_space(&Vec::new()), Some((0, 0)));
}

#[test]
fn sums_that_do_not_fit_have_no_result() {
    let total_too_large =
        vec![DiskSpace { total: u64::MAX, available: 0 }, DiskSpace { total: 1, available: 0 }];
    assert_eq!(sum_disk_space(&total_too_large), None);
    assert_eq!(aggregate_disks(&total_too_large), None);
    let available_too_large = vec![
        DiskSpace { total: 1, available: u64::MAX - 1 },
        DiskSpace { total: 1, available: 1 },
        DiskSpace { total: 1, available: 1 },
    ];
    assert_eq!(sum_disk_space(&available_too_large), None);
    let just_fits =
        vec![DiskSpace { total: u64::MAX - 1, available: 0 }, DiskSpace { total: 1, available: 0 }];
    assert_eq!(sum_disk_space(&just_fits), Some((u64::MAX, 0)));
}

#[test]
fn aggregate_of_several_disks() {
    let disks = vec![
        DiskSpace { total: 200 * GB, available: 50 * GB },
        DiskSpace { total: 300 * GB, available: 150 * GB },
    ];
    assert_eq!(
        aggregate_disks(&disks),
        Some(DiskMetrics {
            total_gb: 500,
            used_gb: 300,
            free_gb: 200,
            percent: Percentage::Ratio { part: 300 * GB, whole: 500 * GB },
        })
    );
    assert_eq!(percent_value(aggregate_disks(&disks).unwrap().percent), 60.0);
}

#[test]
fn aggregate_clamps_the_sum_not_each_disk() {
    let disks = vec![
        DiskSpace { total: 10 * GB, available: 30 * GB },
        DiskSpace { total: 40 * GB, available: 0 },
    ];
    let m = aggregate_disks(&disks).unwrap();
    assert_eq!((m.total_gb, m.used_gb, m.free_gb), (50, 20, 30));
}

#[test]
fn empty_disk_list_of_the_provider_has_zero_metrics() {
    let disks = Disks::new();
    assert_eq!(
        get_disk_metrics(&disks),
        Some(DiskMetrics { total_gb: 0, used_gb: 0, free_gb: 0, percent: Percentage::Zero })
    );
}

#[test]
fn disk_metrics_of_the_provider_list_match_its_disks() {
    let disks = Disks::new_with_refreshed_list();
    let mut total: u128 = 0;
    let mut available: u128 = 0;
    for disk in disks.list() {
        total += disk.total_space() as u128;
        available += disk.available_space() as u128;
    }
    let got = get_disk_metrics(&disks);
    if total > u64::MAX as u128 || available > u64::MAX as u128 {
        assert_eq!(got, None);
    } else {
        assert_eq!(got, Some(disk_metrics(total as u64, available as u64)));
        let m = got.unwrap();
        assert_eq!(m.total_gb, total as u64 / 1024 / 1024 / 1024);
        assert_eq!(m.free_gb, available as u64 / 1024 / 1024 / 1024);
        let value = percent_value(m.percent);
        assert!(value >= 0.0 && value <= 100.0);
    }
}
