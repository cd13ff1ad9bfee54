use dorfbusd::bus::{ProbeOutcome, WriteOutcome};
use dorfbusd::config::{CoilConfig, Config, DeviceConfig, ResetCoilStatus};
use dorfbusd::state::{BusState, CoilValue};

fn three_device_state() -> BusState {
    let config = Config {
        devices: vec![
            ("d1".to_string(), DeviceConfig { description: String::new(), modbus_address: 1 }),
            ("d2".to_string(), DeviceConfig { description: String::new(), modbus_address: 2 }),
            ("d3".to_string(), DeviceConfig { description: String::new(), modbus_address: 3 }),
        ],
        coils: vec![(
            "c".to_string(),
            CoilConfig {
                device: "d1".to_string(),
                address: 0,
                description: String::new(),
                default_status: ResetCoilStatus::DoNotSet,
                tags: vec![],
            },
        )],
    };
    BusState::try_from_config(config).unwrap()
}

#[test]
fn resync_continues_past_a_failed_probe() {
    let mut s = three_device_state();
    let outcomes =
        vec![ProbeOutcome::Version(101), ProbeOutcome::Timeout, ProbeOutcome::Version(103)];
    let seen = s.resync_all(&outcomes);
    assert_eq!(seen, 2);
    assert_eq!(s.devices[0].version, Some(101));
    assert!(s.devices[0].seen);
    assert_eq!(s.devices[1].version, None);
    assert!(!s.devices[1].seen);
    assert_eq!(s.devices[2].version, Some(103));
    assert!(s.devices[2].seen);
}

#[test]
fn resync_forgets_coil_values_first() {
    let mut s = three_device_state();
    s.set_coil("c", true, &WriteOutcome::Accepted).unwrap();
    assert_eq!(s.get_coil("c").unwrap().status, CoilValue::On);
    let outcomes =
        vec![ProbeOutcome::Version(101), ProbeOutcome::Version(102), ProbeOutcome::Version(103)];
    let seen = s.resync_all(&outcomes);
    assert_eq!(seen, 3);
    assert_eq!(s.get_coil("c").unwrap().status, CoilValue::Unknown);
}

#[test]
fn reset_degrades_every_entry() {
    let mut s = three_device_state();
    s.set_coil("c", true, &WriteOutcome::Accepted).unwrap();
    let seen = s.check_state_from_device(&vec![
        ProbeOutcome::Version(101),
        ProbeOutcome::Version(102),
        ProbeOutcome::Version(103),
    ]);
    assert_eq!(seen, 3);
    s.reset();
    for d in &s.devices {
        assert_eq!(d.version, None);
        assert!(!d.seen);
    }
    assert_eq!(s.get_coil("c").unwrap().status, CoilValue::Unknown);
}

#[test]
fn probe_error_leaves_device_unseen() {
    let mut s = three_device_state();
    let outcomes = vec![
        ProbeOutcome::Failed("garbled frame".to_string()),
        ProbeOutcome::Version(102),
        ProbeOutcome::Failed("garbled frame".to_string()),
    ];
    let seen = s.check_state_from_device(&outcomes);
    assert_eq!(seen, 1);
    assert_eq!(s.devices[0].version, None);
    assert!(!s.devices[0].seen);
    assert!(s.devices[1].seen);
}
