use dorfbusd::config::{CoilConfig, Config, ConfigError, DeviceConfig, ResetCoilStatus};
use dorfbusd::state::{BusState, CoilValue};

fn device(desc: &str, addr: u8) -> DeviceConfig {
    DeviceConfig { description: desc.to_string(), modbus_address: addr }
}

fn coil(dev: &str, addr: u16, tags: &[&str]) -> CoilConfig {
    CoilConfig {
        device: dev.to_string(),
        address: addr,
        description: String::new(),
        default_status: ResetCoilStatus::DoNotSet,
        tags: tags.iter().map(|t| t.to_string()).collect(),
    }
}

fn sample_config() -> Config {
    Config {
        devices: vec![
            ("card-a".to_string(), device("first card", 10)),
            ("card-b".to_string(), device("second card", 11)),
        ],
        coils: vec![
            ("pump".to_string(), coil("card-a", 0, &["water", "all"])),
            ("valve".to_string(), coil("card-a", 1, &["water"])),
            ("light".to_string(), coil("card-b", 0, &["all"])),
        ],
    }
}

#[test]
fn build_from_valid_config() {
    let s = BusState::try_from_config(sample_config()).unwrap();
    assert_eq!(s.devices.len(), 2);
    assert_eq!(s.coils.len(), 3);
    for d in &s.devices {
        assert_eq!(d.version, None);
        assert!(!d.seen);
    }
    for c in &s.coils {
        assert_eq!(c.status, CoilValue::Unknown);
    }
    assert_eq!(s.coils[0].device_address, 10);
    assert_eq!(s.coils[2].device_address, 11);
    assert_eq!(s.coils[0].device_index, 0);
    assert_eq!(s.coils[2].device_index, 1);
}

#[test]
fn tag_index_groups_carriers_in_order() {
    let s = BusState::try_from_config(sample_config()).unwrap();
    assert_eq!(s.tags.len(), 2);
    let water = s.tags.iter().find(|t| t.name == "water").unwrap();
    assert_eq!(water.coils, vec![0, 1]);
    let all = s.tags.iter().find(|t| t.name == "all").unwrap();
    assert_eq!(all.coils, vec![0, 2]);
}

#[test]
fn unknown_device_reference_is_rejected() {
    let config = Config {
        devices: vec![("card-a".to_string(), device("", 10))],
        coils: vec![("pump".to_string(), coil("missing", 0, &[]))],
    };
    let err = BusState::try_from_config(config).unwrap_err();
    assert_eq!(
        err,
        ConfigError::UnknownDevice { coil: "pump".to_string(), device: "missing".to_string() }
    );
}

#[test]
fn duplicate_device_name_is_rejected() {
    let config = Config {
        devices: vec![
            ("card-a".to_string(), device("", 10)),
            ("card-a".to_string(), device("", 11)),
        ],
        coils: vec![],
    };
    let err = BusState::try_from_config(config).unwrap_err();
    assert_eq!(err, ConfigError::DuplicateDevice { name: "card-a".to_string() });
}

#[test]
fn duplicate_coil_name_is_rejected() {
    let config = Config {
        devices: vec![("card-a".to_string(), device("", 10))],
        coils: vec![
            ("pump".to_string(), coil("card-a", 0, &[])),
            ("pump".to_string(), coil("card-a", 1, &[])),
        ],
    };
    let err = BusState::try_from_config(config).unwrap_err();
    assert_eq!(err, ConfigError::DuplicateCoil { name: "pump".to_string() });
}

#[test]
fn repeated_tag_label_on_one_coil_is_rejected() {
    let config = Config {
        devices: vec![("card-a".to_string(), device("", 10))],
        coils: vec![("pump".to_string(), coil("card-a", 0, &["water", "water"]))],
    };
    let err = BusState::try_from_config(config).unwrap_err();
    assert_eq!(
        err,
        ConfigError::DuplicateTag { coil: "pump".to_string(), tag: "water".to_string() }
    );
}

#[test]
fn empty_config_builds_empty_state() {
    let s = BusState::try_from_config(Config { devices: vec![], coils: vec![] }).unwrap();
    assert!(s.devices.is_empty());
    assert!(s.coils.is_empty());
    assert!(s.tags.is_empty());
}

#[test]
fn reset_coil_status_defaults_to_do_not_set() {
    assert_eq!(ResetCoilStatus::default(), ResetCoilStatus::DoNotSet);
}
