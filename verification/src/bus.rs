//! Operations on the physical bus, their outcomes, and the exclusive-access
//! gate that serializes them.
//!
//! The transport itself (a half-duplex serial line) lives outside the
//! library. The library decides *which* exchange to issue, hands it out as a
//! [`BusOp`], and is handed back the outcome of the exchange as a
//! [`WriteOutcome`] or [`ProbeOutcome`]. Every exchange is bounded by
//! [`BUS_TIMEOUT_MS`]; exceeding it is reported as a timeout, which cancels
//! only the wait, never the side effect already sent to the device.

use vstd::prelude::*;

use crate::state::StateError;

verus! {

/// Milliseconds an exchange may take before it is reported as timed out.
pub const BUS_TIMEOUT_MS: u64 = 1000;

/// One raw request/response exchange that may be issued on the serial bus.
#[derive(Debug, Clone, PartialEq, Eq, Structural)]
pub enum BusOp {
    /// Read the hardware version register of the device at `device_addr`.
    ReadHardwareVersion { device_addr: u8 },
    /// Drive one coil of one device to `value`.
    WriteCoil { device_addr: u8, coil_addr: u16, value: bool },
    /// Broadcast-scoped reassignment of a device's bus address.
    SetDeviceAddress { old_addr: u8, new_addr: u8 },
}

/// Outcome of one write exchange, as the transport reports it.
#[derive(Debug, Clone, PartialEq, Eq)]
pub enum WriteOutcome {
    /// The device acknowledged the write within the deadline.
    Accepted,
    /// No response within the deadline.
    Timeout,
    /// The transport or the protocol failed; the cause as text.
    Failed(String),
}

/// Outcome of one hardware-version probe, as the transport reports it.
#[derive(Debug, Clone, PartialEq, Eq)]
pub enum ProbeOutcome {
    /// The device answered with its hardware version.
    Version(u16),
    /// No response within the deadline.
    Timeout,
    /// The transport or the protocol failed; the cause as text.
    Failed(String),
}

/// Failure of the relay-card protocol spoken over Modbus.
#[derive(Debug, Clone, PartialEq, Eq)]
pub enum DorfbusError {
    /// The device returned no register at all.
    ModbusEmptyResponse,
    /// The transport failed underneath; the cause as text.
    Io(String),
}

/// The hardware version as a relay card reports it: the first register of
/// the response, which must not be empty.
pub fn hardware_version_from_registers(regs: &Vec<u16>) -> (r: Result<u16, DorfbusError>)
    ensures
        regs@.len() == 0 ==> r == Err::<u16, DorfbusError>(DorfbusError::ModbusEmptyResponse),
        regs@.len() > 0 ==> r == Ok::<u16, DorfbusError>(regs@[0]),
{
    if regs.len() == 0 {
        Err(DorfbusError::ModbusEmptyResponse)
    } else {
        Ok(regs[0])
    }
}

/// A bus address names a single device exactly when it is neither the
/// broadcast address (0) nor in the reserved range (248-255).
pub open spec fn spec_single_device_addr(a: u8) -> bool {
    1 <= a <= 247
}

/// Whether a bus address names a single device.
pub fn is_single_device_addr(a: u8) -> (r: bool)
    ensures
        r == spec_single_device_addr(a),
{
    1 <= a && a <= 247
}

/// Guard of a device-address reassignment, checked before any byte goes
/// out: both the present and the new address must name a single device.
/// The command is broadcast-scoped and valid only with exactly one device
/// on the bus, so dialing the broadcast address or the reserved range is
/// rejected — and a rejection means nothing was sent.
pub fn assign_device_address_op(old_addr: u8, new_addr: u8) -> (r: Result<BusOp, StateError>)
    ensures
        spec_single_device_addr(old_addr) && spec_single_device_addr(new_addr) ==> r == Ok::<
            BusOp,
            StateError,
        >(BusOp::SetDeviceAddress { old_addr, new_addr }),
        !spec_single_device_addr(old_addr) ==> r == Err::<BusOp, StateError>(
            StateError::AddressInvalid(old_addr),
        ),
        spec_single_device_addr(old_addr) && !spec_single_device_addr(new_addr) ==> r == Err::<
            BusOp,
            StateError,
        >(StateError::AddressInvalid(new_addr)),
{
    if !is_single_device_addr(old_addr) {
        Err(StateError::AddressInvalid(old_addr))
    } else if !is_single_device_addr(new_addr) {
        Err(StateError::AddressInvalid(new_addr))
    } else {
        Ok(BusOp::SetDeviceAddress { old_addr, new_addr })
    }
}

/// What an ad-hoc identity probe returns for each outcome of its exchange.
/// The probed device need not be in the topology; no state is touched.
pub fn probe_result(outcome: &ProbeOutcome) -> (r: Result<u16, StateError>)
    ensures
        match outcome {
            ProbeOutcome::Version(v) => r == Ok::<u16, StateError>(*v),
            ProbeOutcome::Timeout => r == Err::<u16, StateError>(StateError::Timeout),
            ProbeOutcome::Failed(m) => r == Err::<u16, StateError>(StateError::Bus(*m)),
        },
{
    match outcome {
        ProbeOutcome::Version(v) => Ok(*v),
        ProbeOutcome::Timeout => Err(StateError::Timeout),
        ProbeOutcome::Failed(m) => Err(StateError::Bus(m.clone())),
    }
}

/// What a device-address reassignment returns, given the outcome of the
/// broadcast-scoped write and of the confirming re-probe of the new
/// address: the probed hardware version confirms the rename; any failure
/// on either exchange is propagated.
pub fn assign_device_address_result(write: &WriteOutcome, probe: &ProbeOutcome) -> (r: Result<
    u16,
    StateError,
>)
    ensures
        match write {
            WriteOutcome::Accepted => match probe {
                ProbeOutcome::Version(v) => r == Ok::<u16, StateError>(*v),
                ProbeOutcome::Timeout => r == Err::<u16, StateError>(StateError::Timeout),
                ProbeOutcome::Failed(m) => r == Err::<u16, StateError>(StateError::Bus(*m)),
            },
            WriteOutcome::Timeout => r == Err::<u16, StateError>(StateError::Timeout),
            WriteOutcome::Failed(m) => r == Err::<u16, StateError>(StateError::Bus(*m)),
        },
{
    match write {
        WriteOutcome::Accepted => probe_result(probe),
        WriteOutcome::Timeout => Err(StateError::Timeout),
        WriteOutcome::Failed(m) => Err(StateError::Bus(m.clone())),
    }
}

/// One event at the coordinator's exclusive-access gate: a raw exchange
/// begins on the wire, or the one in flight completes.
#[derive(Debug, Clone, PartialEq, Eq, Structural)]
pub enum GateEvent {
    Begin(BusOp),
    End,
}

/// How many exchanges a trace leaves in flight: begins minus ends.
pub open spec fn in_flight(trace: Seq<GateEvent>) -> int
    decreases trace.len(),
{
    if trace.len() == 0 {
        0
    } else {
        in_flight(trace.drop_last()) + match trace.last() {
            GateEvent::Begin(_) => 1int,
            GateEvent::End => -1int,
        }
    }
}

/// The traces the exclusive-access gate accepts: an exchange may begin only
/// while no other is in flight, and only the one in flight can end. No
/// order among waiting callers is fixed here, only that the bus is idle
/// whenever a new exchange starts.
pub open spec fn gate_accepts(trace: Seq<GateEvent>) -> bool
    decreases trace.len(),
{
    trace.len() == 0 || {
        &&& gate_accepts(trace.drop_last())
        &&& match trace.last() {
            GateEvent::Begin(_) => in_flight(trace.drop_last()) == 0,
            GateEvent::End => in_flight(trace.drop_last()) == 1,
        }
    }
}

/// Mutual exclusion at the bus: however many logical callers issue
/// operations concurrently, no two raw
/// exchanges overlap — after every prefix at most one is in flight.
pub proof fn lemma_gate_serializes(trace: Seq<GateEvent>)
    requires
        gate_accepts(trace),
    ensures
        forall|n: int| 0 <= n <= trace.len() ==> 0 <= #[trigger] in_flight(trace.take(n)) <= 1,
    decreases trace.len(),
{
    if trace.len() == 0 {
        assert forall|n: int| 0 <= n <= trace.len() implies 0 <= #[trigger] in_flight(
            trace.take(n),
        ) <= 1 by {
            assert(trace.take(n) =~= trace);
        }
    } else {
        let prefix = trace.drop_last();
        lemma_gate_serializes(prefix);
        assert forall|n: int| 0 <= n <= trace.len() implies 0 <= #[trigger] in_flight(
            trace.take(n),
        ) <= 1 by {
            if n < trace.len() {
                assert(trace.take(n) =~= prefix.take(n));
                assert(0 <= in_flight(prefix.take(n)) <= 1);
            } else {
                assert(trace.take(n) =~= trace);
                match trace.last() {
                    GateEvent::Begin(_) => {
                        assert(in_flight(trace) == 1);
                    },
                    GateEvent::End => {
                        assert(in_flight(trace) == 0);
                    },
                }
            }
        }
    }
}

} // verus!
