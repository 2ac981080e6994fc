use cosmic_sys_monitor::panel::{
    disk_segment, disk_space, disk_space_text, traffic_totals, DiskReading, DiskSegment, DiskSpace,
};
use cosmic_sys_monitor::sensors::{classify_sensor, pick_temperature_sensors, SensorRole};

#[test]
fn sensor_roles_follow_the_labels() {
    assert_eq!(classify_sensor("Tctl"), SensorRole::Cpu);
    assert_eq!(classify_sensor("CPU Temperature"), SensorRole::Cpu);
    assert_eq!(classify_sensor("coretemp Package id 0"), SensorRole::Cpu);
    assert_eq!(classify_sensor("edge"), SensorRole::Gpu);
    assert_eq!(classify_sensor("nvidia gpu"), SensorRole::Gpu);
    assert_eq!(classify_sensor("nvidia CPU"), SensorRole::Cpu);
    assert_eq!(classify_sensor("Tctl "), SensorRole::Other);
    assert_eq!(classify_sensor("edges"), SensorRole::Other);
    assert_eq!(classify_sensor("cpu"), SensorRole::Other);
    assert_eq!(classify_sensor(""), SensorRole::Other);
    assert_eq!(classify_sensor("Package id 1"), SensorRole::Other);
}

#[test]
fn the_last_matching_sensor_wins() {
    let labels: Vec<String> = ["Tctl", "edge", "acpitz", "CPU", "nvme", "nvidia"]
        .iter()
        .map(|s| s.to_string())
        .collect();
    let p = pick_temperature_sensors(&labels);
    assert_eq!(p.cpu, Some(3));
    assert_eq!(p.gpu, Some(5));
    let p = pick_temperature_sensors(&vec!["acpitz".to_string()]);
    assert_eq!(p.cpu, None);
    assert_eq!(p.gpu, None);
}

fn disks(v: &[(&str, u64, u64)]) -> Vec<DiskReading> {
    v.iter()
        .map(|(m, t, a)| DiskReading { mount_point: m.to_string(), total_space: *t, available_space: *a })
        .collect()
}

const GIB: u64 = 1 << 30;

fn usage_of(s: DiskSegment) -> (DiskSpace, String) {
    match s {
        DiskSegment::Usage { space, detail } => (space, detail),
        DiskSegment::NotAvailable => panic!("not available"),
        DiskSegment::MoreAvailableThanTotal => panic!("more available than total"),
    }
}

#[test]
fn the_first_root_or_home_disk_is_reported() {
    let d = disks(&[("/boot", 1, 0), ("/", 100 * GIB, 40 * GIB), ("/home", 500 * GIB, 0)]);
    assert_eq!(
        usage_of(disk_segment(&d, true)),
        (DiskSpace { used_gib: 60, total_gib: 100 }, "| 60/100 GB".to_string())
    );
    let d = disks(&[("/boot/efi", 1, 0), ("/home/user", 10 * GIB, GIB), ("/", 100 * GIB, 0)]);
    assert_eq!(
        usage_of(disk_segment(&d, false)),
        (DiskSpace { used_gib: 9, total_gib: 10 }, String::new())
    );
    let d = disks(&[("/homestead", 2 * GIB, GIB)]);
    assert_eq!(usage_of(disk_segment(&d, true)).0, DiskSpace { used_gib: 1, total_gib: 2 });
}

#[test]
fn no_watched_disk_reads_not_available() {
    assert!(matches!(disk_segment(&disks(&[("/boot", 1, 0), ("/mnt", 2, 0), ("//", 3, 0)]), true), DiskSegment::NotAvailable));
    assert!(matches!(disk_segment(&disks(&[]), true), DiskSegment::NotAvailable));
}

#[test]
fn more_space_available_than_held_is_reported() {
    let d = disks(&[("/", GIB, 3 * GIB), ("/home", 10 * GIB, 0)]);
    assert!(matches!(disk_segment(&d, true), DiskSegment::MoreAvailableThanTotal));
}

#[test]
fn disk_space_in_whole_gibibytes() {
    let gib = 1u64 << 30;
    assert_eq!(
        disk_space(500 * gib + 7, 120 * gib + gib / 2),
        Some(DiskSpace { used_gib: 380, total_gib: 500 })
    );
    assert_eq!(disk_space(gib - 1, 0), Some(DiskSpace { used_gib: 0, total_gib: 0 }));
    assert_eq!(disk_space(gib, 2 * gib), None);
}

#[test]
fn disk_space_text_example() {
    assert_eq!(disk_space_text(DiskSpace { used_gib: 380, total_gib: 500 }), "| 380/500 GB");
}

#[test]
fn traffic_is_summed_over_interfaces() {
    assert_eq!(traffic_totals(&vec![(1, 2), (30, 40), (500, 600)]), Some((531, 642)));
    assert_eq!(traffic_totals(&vec![]), Some((0, 0)));
    assert_eq!(traffic_totals(&vec![(u64::MAX, 0), (1, 0)]), None);
    assert_eq!(traffic_totals(&vec![(0, u64::MAX), (0, 1)]), None);
    assert_eq!(traffic_totals(&vec![(u64::MAX, u64::MAX)]), Some((u64::MAX, u64::MAX)));
}
