//! Multi-rate poller schedule and fleet target grouping.

use slmp::poller::{due_devices, interval_due, next_tick_counter, MonitorDevice, PollingInterval};
use slmp::fleet::{targets_for_endpoint, Endpoint, MonitorRequest};
use slmp::{CPU, DataType, Device, DeviceType, SLMP4EConnectionProps, TypedDevice};

fn td(address: usize) -> TypedDevice {
    TypedDevice {
        device: Device { device_type: DeviceType::D, address },
        data_type: DataType::U16,
    }
}

#[test]
fn interval_schedule_over_one_cycle() {
    // Counter values of one five-second window: fifty ticks.
    let mut cnt: u8 = 0;
    let mut fast: u32 = 0;
    let mut medium: u32 = 0;
    let mut slow: u32 = 0;
    let mut watch: u32 = 0;
    for _ in 0..50 {
        if interval_due(PollingInterval::Fast, cnt) {
            fast += 1;
        }
        if interval_due(PollingInterval::Medium, cnt) {
            medium += 1;
        }
        if interval_due(PollingInterval::Slow, cnt) {
            slow += 1;
        }
        if interval_due(PollingInterval::Watch, cnt) {
            watch += 1;
        }
        cnt = next_tick_counter(cnt);
    }
    assert_eq!(fast, 50);
    assert_eq!(medium, 10);
    assert_eq!(slow, 5);
    assert_eq!(watch, 1);
}

#[test]
fn poll_counts_per_registered_target() {
    // Two fast targets, one medium, one watch; no slow target, so slow
    // polls never happen.
    let targets = vec![
        MonitorDevice { monitor_device: td(1), interval: PollingInterval::Fast },
        MonitorDevice { monitor_device: td(2), interval: PollingInterval::Fast },
        MonitorDevice { monitor_device: td(3), interval: PollingInterval::Medium },
        MonitorDevice { monitor_device: td(4), interval: PollingInterval::Watch },
    ];
    let mut cnt: u8 = 0;
    let mut polls = [0u32; 4];
    for _ in 0..50 {
        let due = due_devices(&targets, cnt);
        for d in &due {
            match d.device.address {
                1 => polls[0] += 1,
                2 => polls[1] += 1,
                3 => polls[2] += 1,
                4 => polls[3] += 1,
                _ => unreachable!(),
            }
        }
        cnt = next_tick_counter(cnt);
    }
    assert_eq!(polls, [50, 50, 10, 1]);
}

#[test]
fn counter_restarts_at_one() {
    assert_eq!(next_tick_counter(0), 1);
    assert_eq!(next_tick_counter(48), 49);
    assert_eq!(next_tick_counter(49), 1);
    // Ticks while 49 are the only watch ticks.
    assert!(interval_due(PollingInterval::Watch, 49));
    assert!(!interval_due(PollingInterval::Watch, 0));
}

#[test]
fn due_devices_keep_registration_order() {
    let targets = vec![
        MonitorDevice { monitor_device: td(9), interval: PollingInterval::Medium },
        MonitorDevice { monitor_device: td(7), interval: PollingInterval::Fast },
        MonitorDevice { monitor_device: td(8), interval: PollingInterval::Medium },
    ];
    let due = due_devices(&targets, 7);
    assert_eq!(due, vec![td(7)]);
    let due = due_devices(&targets, 10);
    assert_eq!(due, vec![td(9), td(7), td(8)]);
}

fn req(ip: &str, port: u16, address: usize, interval: PollingInterval) -> MonitorRequest {
    MonitorRequest {
        connection_props: SLMP4EConnectionProps {
            ip: String::from(ip),
            port,
            cpu: CPU::Q,
            serial_id: 1,
            network_id: 0,
            pc_id: 0xff,
            io_id: 0x03ff,
            area_id: 0,
            cpu_timer: 0x10,
        },
        monitor_device: td(address),
        interval,
    }
}

#[test]
fn targets_are_grouped_by_endpoint() {
    let requests = vec![
        req("10.0.0.1", 5007, 1, PollingInterval::Fast),
        req("10.0.0.2", 5007, 2, PollingInterval::Slow),
        req("10.0.0.1", 5007, 3, PollingInterval::Watch),
        req("10.0.0.1", 5008, 4, PollingInterval::Fast),
    ];
    let one = targets_for_endpoint(
        &requests,
        &Endpoint { ip: String::from("10.0.0.1"), port: 5007 },
    );
    assert_eq!(one.len(), 2);
    assert_eq!(one[0].monitor_device, td(1));
    assert_eq!(one[0].interval, PollingInterval::Fast);
    assert_eq!(one[1].monitor_device, td(3));
    let two = targets_for_endpoint(
        &requests,
        &Endpoint { ip: String::from("10.0.0.2"), port: 5007 },
    );
    assert_eq!(two.len(), 1);
    assert_eq!(two[0].monitor_device, td(2));
    let none = targets_for_endpoint(
        &requests,
        &Endpoint { ip: String::from("10.0.0.9"), port: 5007 },
    );
    assert!(none.is_empty());
}
