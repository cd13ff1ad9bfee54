use dorfbusd::bus::{BusOp, ProbeOutcome, WriteOutcome};
use dorfbusd::config::{CoilConfig, Config, DeviceConfig, ResetCoilStatus};
use dorfbusd::state::{tag_result_ok, BusState, CoilValue, StateError};

fn device(addr: u8) -> DeviceConfig {
    DeviceConfig { description: String::new(), modbus_address: addr }
}

fn coil(dev: &str, addr: u16, tags: &[&str]) -> CoilConfig {
    CoilConfig {
        device: dev.to_string(),
        address: addr,
        description: String::new(),
        default_status: ResetCoilStatus::DoNotSet,
        tags: tags.iter().map(|t| t.to_string()).collect(),
    }
}

fn three_coil_state() -> BusState {
    let config = Config {
        devices: vec![("card".to_string(), device(7))],
        coils: vec![
            ("c1".to_string(), coil("card", 1, &["grp"])),
            ("c2".to_string(), coil("card", 2, &["grp"])),
            ("c3".to_string(), coil("card", 3, &["grp"])),
        ],
    };
    BusState::try_from_config(config).unwrap()
}

#[test]
fn get_coil_reads_cached_state_only() {
    let s = three_coil_state();
    let u = s.get_coil("c1").unwrap();
    assert_eq!(u.name, "c1");
    assert_eq!(u.device, "card");
    assert_eq!(u.device_id, 7);
    assert_eq!(u.coil_id, 1);
    assert_eq!(u.status, CoilValue::Unknown);
}

#[test]
fn get_coil_unknown_name() {
    let s = three_coil_state();
    match s.get_coil("nope") {
        Err(StateError::CoilNotFound(n)) => assert_eq!(n, "nope"),
        other => panic!("unexpected result: {:?}", other),
    }
}

#[test]
fn coil_write_op_addresses_the_owning_card() {
    let s = three_coil_state();
    let op = s.coil_write_op("c2", true).unwrap();
    assert_eq!(op, BusOp::WriteCoil { device_addr: 7, coil_addr: 2, value: true });
}

#[test]
fn accepted_write_commits_the_value() {
    let mut s = three_coil_state();
    let u = s.set_coil("c1", true, &WriteOutcome::Accepted).unwrap();
    assert_eq!(u.status, CoilValue::On);
    assert_eq!(s.get_coil("c1").unwrap().status, CoilValue::On);
    let u = s.set_coil("c1", false, &WriteOutcome::Accepted).unwrap();
    assert_eq!(u.status, CoilValue::Off);
    assert_eq!(s.get_coil("c2").unwrap().status, CoilValue::Unknown);
}

#[test]
fn timed_out_write_degrades_to_unknown() {
    let mut s = three_coil_state();
    s.set_coil("c1", true, &WriteOutcome::Accepted).unwrap();
    let e = s.set_coil("c1", false, &WriteOutcome::Timeout).unwrap_err();
    assert_eq!(e, StateError::Timeout);
    assert_eq!(s.get_coil("c1").unwrap().status, CoilValue::Unknown);
}

#[test]
fn failed_write_degrades_to_unknown_and_keeps_cause() {
    let mut s = three_coil_state();
    s.set_coil("c2", true, &WriteOutcome::Accepted).unwrap();
    let e = s.set_coil("c2", true, &WriteOutcome::Failed("broken pipe".to_string())).unwrap_err();
    assert_eq!(e, StateError::Bus("broken pipe".to_string()));
    assert_eq!(s.get_coil("c2").unwrap().status, CoilValue::Unknown);
}

#[test]
fn get_tag_lists_members_in_order() {
    let s = three_coil_state();
    let us = s.get_tag("grp").unwrap();
    assert_eq!(us.len(), 3);
    assert_eq!(us[0].name, "c1");
    assert_eq!(us[1].name, "c2");
    assert_eq!(us[2].name, "c3");
}

#[test]
fn get_tag_unknown_name() {
    let s = three_coil_state();
    match s.get_tag("nope") {
        Err(StateError::TagNotFound(n)) => assert_eq!(n, "nope"),
        other => panic!("unexpected result: {:?}", other),
    }
}

#[test]
fn tag_write_ops_cover_every_member() {
    let s = three_coil_state();
    let ops = s.tag_write_ops("grp", false).unwrap();
    assert_eq!(
        ops,
        vec![
            BusOp::WriteCoil { device_addr: 7, coil_addr: 1, value: false },
            BusOp::WriteCoil { device_addr: 7, coil_addr: 2, value: false },
            BusOp::WriteCoil { device_addr: 7, coil_addr: 3, value: false },
        ]
    );
}

#[test]
fn tag_fanout_partial_failure_stays_per_coil() {
    let mut s = three_coil_state();
    let outcomes = vec![
        WriteOutcome::Accepted,
        WriteOutcome::Failed("no reply".to_string()),
        WriteOutcome::Accepted,
    ];
    let results = s.set_tag("grp", true, &outcomes).unwrap();
    assert_eq!(results.len(), 3);
    assert_eq!(results[0].as_ref().unwrap().status, CoilValue::On);
    assert_eq!(results[1].as_ref().unwrap_err(), &StateError::Bus("no reply".to_string()));
    assert_eq!(results[2].as_ref().unwrap().status, CoilValue::On);
    assert_eq!(s.get_coil("c1").unwrap().status, CoilValue::On);
    assert_eq!(s.get_coil("c2").unwrap().status, CoilValue::Unknown);
    assert_eq!(s.get_coil("c3").unwrap().status, CoilValue::On);
    assert!(!tag_result_ok(&results));
}

#[test]
fn tag_fanout_all_accepted_reports_ok() {
    let mut s = three_coil_state();
    let outcomes = vec![WriteOutcome::Accepted, WriteOutcome::Accepted, WriteOutcome::Accepted];
    let results = s.set_tag("grp", false, &outcomes).unwrap();
    assert!(tag_result_ok(&results));
    for r in &results {
        assert_eq!(r.as_ref().unwrap().status, CoilValue::Off);
    }
}

#[test]
fn set_tag_unknown_name_touches_nothing() {
    let mut s = three_coil_state();
    match s.set_tag("nope", true, &vec![]) {
        Err(StateError::TagNotFound(n)) => assert_eq!(n, "nope"),
        other => panic!("unexpected result: {:?}", other),
    }
    assert_eq!(s.get_coil("c1").unwrap().status, CoilValue::Unknown);
}

#[test]
fn tag_result_ok_on_empty_results() {
    assert!(tag_result_ok(&vec![]));
}

#[test]
fn probe_outcome_updates_device_entry() {
    let mut s = three_coil_state();
    let seen = s.check_state_from_device(&vec![ProbeOutcome::Version(106)]);
    assert_eq!(seen, 1);
    assert_eq!(s.devices[0].version, Some(106));
    assert!(s.devices[0].seen);
}

#[test]
fn device_lookup_finds_live_entry() {
    let mut s = three_coil_state();
    s.check_state_from_device(&vec![ProbeOutcome::Version(106)]);
    let d = s.device("card").unwrap();
    assert_eq!(d.name, "card");
    assert_eq!(d.config.modbus_address, 7);
    assert_eq!(d.version, Some(106));
    assert!(d.seen);
}

#[test]
fn device_lookup_unknown_name() {
    let s = three_coil_state();
    match s.device("nope") {
        Err(StateError::DeviceNotFound(n)) => assert_eq!(n, "nope"),
        other => panic!("unexpected result: {:?}", other),
    }
}

#[test]
fn coil_and_tag_lookups_return_entries() {
    let s = three_coil_state();
    let c = s.coil("c2").unwrap();
    assert_eq!(c.config.address, 2);
    assert_eq!(c.status, CoilValue::Unknown);
    let t = s.tag("grp").unwrap();
    assert_eq!(t.name, "grp");
    assert_eq!(t.coils, vec![0, 1, 2]);
}
