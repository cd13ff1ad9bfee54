use dorfbusd::bus::{
    assign_device_address_op, assign_device_address_result, hardware_version_from_registers,
    is_single_device_addr, probe_result, BusOp, DorfbusError, ProbeOutcome, WriteOutcome,
    BUS_TIMEOUT_MS,
};
use dorfbusd::cli::{is_serial_candidate, ReadVersion, SetDeviceAddress, SubCommand};
use dorfbusd::state::{CoilValue, StateError};

#[test]
fn broadcast_address_is_rejected_before_sending() {
    let err = assign_device_address_op(0, 5).unwrap_err();
    assert_eq!(err, StateError::AddressInvalid(0));
}

#[test]
fn reserved_address_is_rejected_before_sending() {
    let err = assign_device_address_op(248, 5).unwrap_err();
    assert_eq!(err, StateError::AddressInvalid(248));
}

#[test]
fn invalid_new_address_is_rejected_before_sending() {
    let err = assign_device_address_op(5, 255).unwrap_err();
    assert_eq!(err, StateError::AddressInvalid(255));
}

#[test]
fn valid_reassignment_builds_the_broadcast_scoped_op() {
    let op = assign_device_address_op(5, 7).unwrap();
    assert_eq!(op, BusOp::SetDeviceAddress { old_addr: 5, new_addr: 7 });
}

#[test]
fn single_device_address_range() {
    assert!(!is_single_device_addr(0));
    assert!(is_single_device_addr(1));
    assert!(is_single_device_addr(247));
    assert!(!is_single_device_addr(248));
    assert!(!is_single_device_addr(255));
}

#[test]
fn reassignment_is_confirmed_by_the_reprobe() {
    let r = assign_device_address_result(&WriteOutcome::Accepted, &ProbeOutcome::Version(106));
    assert_eq!(r.unwrap(), 106);
    let r = assign_device_address_result(&WriteOutcome::Accepted, &ProbeOutcome::Timeout);
    assert_eq!(r.unwrap_err(), StateError::Timeout);
    let r = assign_device_address_result(
        &WriteOutcome::Failed("io".to_string()),
        &ProbeOutcome::Version(106),
    );
    assert_eq!(r.unwrap_err(), StateError::Bus("io".to_string()));
}

#[test]
fn probe_result_maps_each_outcome() {
    assert_eq!(probe_result(&ProbeOutcome::Version(42)).unwrap(), 42);
    assert_eq!(probe_result(&ProbeOutcome::Timeout).unwrap_err(), StateError::Timeout);
    assert_eq!(
        probe_result(&ProbeOutcome::Failed("noise".to_string())).unwrap_err(),
        StateError::Bus("noise".to_string())
    );
}

#[test]
fn hardware_version_is_the_first_register() {
    assert_eq!(hardware_version_from_registers(&vec![106, 3]).unwrap(), 106);
    assert_eq!(hardware_version_from_registers(&vec![7]).unwrap(), 7);
}

#[test]
fn empty_register_response_is_an_error() {
    assert_eq!(
        hardware_version_from_registers(&vec![]).unwrap_err(),
        DorfbusError::ModbusEmptyResponse
    );
}

#[test]
fn exchanges_are_bounded_by_one_second() {
    assert_eq!(BUS_TIMEOUT_MS, 1000);
}

#[test]
fn coil_value_follows_the_written_bool() {
    assert_eq!(CoilValue::from(true), CoilValue::On);
    assert_eq!(CoilValue::from(false), CoilValue::Off);
    assert_eq!(CoilValue::default(), CoilValue::Unknown);
}

#[test]
fn read_version_command_probes_the_device() {
    let cmd = SubCommand::ReadVersion(ReadVersion { modbus_id: 9 });
    assert_eq!(cmd.initial_op().unwrap(), BusOp::ReadHardwareVersion { device_addr: 9 });
}

#[test]
fn set_address_command_is_guarded() {
    let cmd = SubCommand::SetDeviceAddress(SetDeviceAddress { modbus_id: 0 });
    assert_eq!(cmd.initial_op().unwrap_err(), StateError::AddressInvalid(0));
    let cmd = SubCommand::SetDeviceAddress(SetDeviceAddress { modbus_id: 9 });
    assert_eq!(
        cmd.initial_op().unwrap(),
        BusOp::SetDeviceAddress { old_addr: 9, new_addr: 9 }
    );
}

#[test]
fn serial_device_name_heuristic() {
    assert!(is_serial_candidate("ttyUSB0"));
    assert!(is_serial_candidate("ttyACM3"));
    assert!(is_serial_candidate("ttyAMA0"));
    assert!(is_serial_candidate("tty.usbserial-A1B2"));
    assert!(!is_serial_candidate("video0"));
    assert!(!is_serial_candidate("tty"));
    assert!(!is_serial_candidate("usbttyUSB"));
}
