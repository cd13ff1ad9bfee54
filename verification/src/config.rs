//! Static topology of the bus: devices, coils and their tag labels.
//!
//! The topology is loaded once at startup and never mutated afterwards. A
//! device is one relay card with a single-byte bus address; a coil is one
//! relay output on such a card; a tag is a label that groups coils across
//! devices for bulk operations. Entries are kept as name/value pairs in the
//! order the document listed them.

use vstd::prelude::*;

verus! {

/// Value to which a coil should be driven when the coil, the device or the
/// whole bus is reset.
#[derive(Debug, Clone, PartialEq, Eq, Structural)]
pub enum ResetCoilStatus {
    On,
    Off,
    DoNotSet,
}

impl Default for ResetCoilStatus {
    fn default() -> (r: Self)
        ensures
            r == ResetCoilStatus::DoNotSet,
    {
        ResetCoilStatus::DoNotSet
    }
}

/// Configuration of one relay card on the bus.
#[derive(Debug, Clone, PartialEq, Eq)]
pub struct DeviceConfig {
    /// Free-text description of the card.
    pub description: String,
    /// Bus address of the card.
    pub modbus_address: u8,
}

/// Configuration of one coil of one relay card.
#[derive(Debug, Clone, PartialEq, Eq)]
pub struct CoilConfig {
    /// Name of the relay card that owns the coil.
    pub device: String,
    /// Address of the coil on its card.
    pub address: u16,
    /// Free-text description of the coil.
    pub description: String,
    /// Value the coil should take on a reset.
    pub default_status: ResetCoilStatus,
    /// Tag labels the coil carries; a set, so no label twice.
    pub tags: Vec<String>,
}

/// The whole static topology: named devices and named coils.
#[derive(Debug, Clone, PartialEq, Eq)]
pub struct Config {
    pub devices: Vec<(String, DeviceConfig)>,
    pub coils: Vec<(String, CoilConfig)>,
}

/// No two entries share a name.
pub open spec fn names_unique<T>(entries: Seq<(String, T)>) -> bool {
    forall|i: int, j: int| 0 <= i < j < entries.len() ==> entries[i].0@ != entries[j].0@
}

/// Some device entry carries this name.
pub open spec fn spec_has_device(c: Config, name: Seq<char>) -> bool {
    exists|i: int| 0 <= i < c.devices@.len() && c.devices@[i].0@ == name
}

/// The coil's tag labels are pairwise distinct.
pub open spec fn coil_tags_unique(cc: CoilConfig) -> bool {
    forall|i: int, j: int| 0 <= i < j < cc.tags@.len() ==> cc.tags@[i]@ != cc.tags@[j]@
}

/// A topology is accepted when device and coil names are unique, every
/// coil's device reference resolves, and no coil carries a tag twice.
pub open spec fn config_valid(c: Config) -> bool {
    &&& names_unique(c.devices@)
    &&& names_unique(c.coils@)
    &&& forall|i: int|
        0 <= i < c.coils@.len() ==> spec_has_device(c, #[trigger] c.coils@[i].1.device@)
    &&& forall|i: int| 0 <= i < c.coils@.len() ==> coil_tags_unique(#[trigger] c.coils@[i].1)
}

/// Why a topology document was rejected at load time. Loading is fatal at
/// startup: a rejected document never yields live state.
#[derive(Debug, Clone, PartialEq, Eq)]
pub enum ConfigError {
    /// A coil references a device name that no device entry carries.
    UnknownDevice { coil: String, device: String },
    /// Two device entries share a name.
    DuplicateDevice { name: String },
    /// Two coil entries share a name.
    DuplicateCoil { name: String },
    /// One coil carries the same tag label twice.
    DuplicateTag { coil: String, tag: String },
}

} // verus!
