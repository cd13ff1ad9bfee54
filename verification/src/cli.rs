//! Runtime parameters of the daemon, and the maintenance tool's commands.
//!
//! Argument parsing and the serial port itself live outside the library;
//! what stands here is the data the front ends hand in and the decisions
//! made on it: which bus exchange a maintenance command issues, and which
//! device files qualify when no serial path was configured.

use vstd::prelude::*;

use crate::bus::{assign_device_address_op, spec_single_device_addr, BusOp};
use crate::state::StateError;
use crate::text::{spec_is_prefix, str_starts_with};

verus! {

/// Runtime parameters of the gateway daemon.
#[derive(Debug, Clone, PartialEq, Eq)]
pub struct Params {
    /// TCP port the facade listens on.
    pub port: u16,
    /// Path to the serial device of the bus.
    pub serial_path: String,
    /// Baud rate of the serial device.
    pub serial_boud: u32,
    /// Path to the topology document.
    pub config_path: String,
}

/// Options of the stand-alone maintenance tool.
#[derive(Debug, Clone, PartialEq, Eq)]
pub struct Opts {
    /// Path to the serial device of the bus.
    pub serial_device: String,
    /// Baud rate of the serial device.
    pub boud_rate: u32,
    /// What to do on the bus.
    pub subcmd: SubCommand,
}

/// The maintenance tool's commands.
#[derive(Debug, Clone, PartialEq, Eq)]
pub enum SubCommand {
    ReadVersion(ReadVersion),
    SetDeviceAddress(SetDeviceAddress),
}

/// Read version information of a single device.
#[derive(Debug, Clone, PartialEq, Eq, Structural)]
pub struct ReadVersion {
    /// Address of the device on the bus.
    pub modbus_id: u8,
}

/// Reassign the bus address of the single connected device.
#[derive(Debug, Clone, PartialEq, Eq, Structural)]
pub struct SetDeviceAddress {
    /// Address the device shall take.
    pub modbus_id: u8,
}

impl SubCommand {
    /// The first bus exchange this command issues: a version read probes
    /// the named device; an address reassignment passes the address guard
    /// first, and a rejection means nothing is sent.
    pub fn initial_op(&self) -> (r: Result<BusOp, StateError>)
        ensures
            match self {
                SubCommand::ReadVersion(p) => r == Ok::<BusOp, StateError>(
                    BusOp::ReadHardwareVersion { device_addr: p.modbus_id },
                ),
                SubCommand::SetDeviceAddress(p) => {
                    &&& spec_single_device_addr(p.modbus_id) ==> r == Ok::<BusOp, StateError>(
                        BusOp::SetDeviceAddress {
                            old_addr: p.modbus_id,
                            new_addr: p.modbus_id,
                        },
                    )
                    &&& !spec_single_device_addr(p.modbus_id) ==> r == Err::<BusOp, StateError>(
                        StateError::AddressInvalid(p.modbus_id),
                    )
                },
            },
    {
        match self {
            SubCommand::ReadVersion(p) => Ok(
                BusOp::ReadHardwareVersion { device_addr: p.modbus_id },
            ),
            SubCommand::SetDeviceAddress(p) => assign_device_address_op(
                p.modbus_id,
                p.modbus_id,
            ),
        }
    }
}

/// The device-file names that qualify as a serial port guess when none was
/// configured: USB serial adapters, ARM board UARTs, and the macOS naming.
pub open spec fn spec_serial_candidate(s: Seq<char>) -> bool {
    ||| spec_is_prefix("ttyUSB"@, s)
    ||| spec_is_prefix("ttyACM"@, s)
    ||| spec_is_prefix("ttyAMA"@, s)
    ||| spec_is_prefix("tty.usbserial-"@, s)
}

/// Whether a device-file name qualifies as a serial port guess.
pub fn is_serial_candidate(name: &str) -> (r: bool)
    ensures
        r == spec_serial_candidate(name@),
{
    str_starts_with(name, "ttyUSB") || str_starts_with(name, "ttyACM") || str_starts_with(
        name,
        "ttyAMA",
    ) || str_starts_with(name, "tty.usbserial-")
}

} // verus!
