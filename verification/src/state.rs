//! Live state of the bus: one entry per configured device and coil.
//!
//! The entries are built once from the topology and live for the process;
//! only their `version`/`seen`/`status` fields ever change, and only as the
//! result of a bus operation's outcome. A failed or timed-out operation
//! always degrades the affected entry to `Unknown`/unseen: the store never
//! reports a stale value after an operation whose outcome is uncertain.

use vstd::prelude::*;

use crate::bus::{BusOp, ProbeOutcome, WriteOutcome};
use crate::config::{CoilConfig, Config, ConfigError, DeviceConfig};
use crate::text::str_eq;

verus! {

/// Tracked value of one relay coil.
///
/// The relay cards give no read-back of their outputs, so a coil's value is
/// only ever inferred from the last accepted write. `Unknown` stands both for
/// "never written" and for "last operation's outcome uncertain".
#[derive(Debug, Copy, Clone, PartialEq, Eq, Structural)]
pub enum CoilValue {
    On,
    Off,
    Unknown,
}

/// The value a successful write of `v` drives a coil to.
pub open spec fn coil_value_of(v: bool) -> CoilValue {
    if v {
        CoilValue::On
    } else {
        CoilValue::Off
    }
}

impl From<bool> for CoilValue {
    fn from(v: bool) -> (r: CoilValue) {
        if v {
            CoilValue::On
        } else {
            CoilValue::Off
        }
    }
}

impl vstd::std_specs::convert::FromSpecImpl<bool> for CoilValue {
    open spec fn obeys_from_spec() -> bool {
        true
    }

    open spec fn from_spec(v: bool) -> CoilValue {
        coil_value_of(v)
    }
}

impl Default for CoilValue {
    /// A coil starts out unknown, until the first successful write.
    fn default() -> (r: Self)
        ensures
            r == CoilValue::Unknown,
    {
        CoilValue::Unknown
    }
}

/// Failure of one state-store or executor operation.
#[derive(Debug, Clone, PartialEq, Eq)]
pub enum StateError {
    /// No coil of that name is configured. No state was touched.
    CoilNotFound(String),
    /// No tag of that name is carried by any coil. No state was touched.
    TagNotFound(String),
    /// No device of that name is configured. No state was touched.
    DeviceNotFound(String),
    /// A bus exchange exceeded its deadline; the affected entry was
    /// degraded to unknown/unseen.
    Timeout,
    /// The transport or the protocol failed; the cause as text. Same
    /// state degradation as a timeout.
    Bus(String),
    /// A device-address reassignment named a broadcast, reserved or
    /// otherwise non-single-device address. Nothing was sent.
    AddressInvalid(u8),
}

/// Snapshot of one coil, handed to the facade after a read or a write.
#[derive(Debug, Clone, PartialEq, Eq)]
pub struct CoilUpdate {
    /// Name of the coil.
    pub name: String,
    /// Name of the relay card that owns the coil.
    pub device: String,
    /// Bus address of that card.
    pub device_id: u8,
    /// Address of the coil on its card.
    pub coil_id: u16,
    /// Tracked value after the operation.
    pub status: CoilValue,
}

/// Live state of one relay card.
#[derive(Debug, Clone, PartialEq, Eq)]
pub struct DeviceState {
    /// Name of the card in the topology.
    pub name: String,
    /// Static configuration of the card.
    pub config: DeviceConfig,
    /// Hardware version from the last successful probe, if any.
    pub version: Option<u16>,
    /// Whether the last probe of the card succeeded.
    pub seen: bool,
}

impl DeviceState {
    /// Drop everything learned from the hardware, as after a bus-wide
    /// disturbance.
    pub fn reset(&mut self)
        ensures
            final(self).name == old(self).name,
            final(self).config == old(self).config,
            final(self).version is None,
            !final(self).seen,
    {
        self.version = None;
        self.seen = false;
    }

    /// Record the outcome of a hardware-version probe of this card.
    ///
    /// A successful probe stores the version and marks the card seen; a
    /// timeout or a transport failure leaves the card unseen with no
    /// version — never a stale prior value.
    pub fn check_state_from_device(&mut self, outcome: &ProbeOutcome) -> (r: Result<
        u16,
        StateError,
    >)
        ensures
            final(self).name == old(self).name,
            final(self).config == old(self).config,
            match outcome {
                ProbeOutcome::Version(v) => final(self).version == Some(*v) && final(self).seen
                    && r == Ok::<u16, StateError>(*v),
                ProbeOutcome::Timeout => final(self).version is None && !final(self).seen && r
                    == Err::<u16, StateError>(StateError::Timeout),
                ProbeOutcome::Failed(m) => final(self).version is None && !final(self).seen && r
                    == Err::<u16, StateError>(StateError::Bus(*m)),
            },
    {
        match outcome {
            ProbeOutcome::Version(v) => {
                self.version = Some(*v);
                self.seen = true;
                Ok(*v)
            },
            ProbeOutcome::Timeout => {
                self.version = None;
                self.seen = false;
                Err(StateError::Timeout)
            },
            ProbeOutcome::Failed(m) => {
                self.version = None;
                self.seen = false;
                Err(StateError::Bus(m.clone()))
            },
        }
    }
}

/// Live state of one coil.
#[derive(Debug, Clone, PartialEq, Eq)]
pub struct CoilState {
    /// Name of the coil in the topology.
    pub name: String,
    /// Static configuration of the coil.
    pub config: CoilConfig,
    /// Index of the owning card's entry in the state store.
    pub device_index: usize,
    /// Bus address of the owning card.
    pub device_address: u8,
    /// Tracked value of the coil.
    pub status: CoilValue,
}

impl CoilState {
    /// The snapshot this coil yields right now.
    pub open spec fn spec_update(self) -> CoilUpdate {
        CoilUpdate {
            name: self.name,
            device: self.config.device,
            device_id: self.device_address,
            coil_id: self.config.address,
            status: self.status,
        }
    }

    /// Everything but the tracked value is as it was.
    pub open spec fn same_entry(self, other: CoilState) -> bool {
        &&& self.name == other.name
        &&& self.config == other.config
        &&& self.device_index == other.device_index
        &&& self.device_address == other.device_address
    }

    /// Drop the tracked value, as after a bus-wide disturbance.
    pub fn reset(&mut self)
        ensures
            final(self).same_entry(*old(self)),
            final(self).status == CoilValue::Unknown,
    {
        self.status = CoilValue::Unknown;
    }

    /// Snapshot the coil for the facade.
    pub fn as_update(&self) -> (u: CoilUpdate)
        ensures
            u == self.spec_update(),
    {
        CoilUpdate {
            name: self.name.clone(),
            device: self.config.device.clone(),
            device_id: self.device_address,
            coil_id: self.config.address,
            status: self.status,
        }
    }

    /// Read of the cached state; touches no hardware.
    pub fn get_coil(&self) -> (r: Result<CoilUpdate, StateError>)
        ensures
            r == Ok::<CoilUpdate, StateError>(self.spec_update()),
    {
        Ok(self.as_update())
    }

    /// Record the outcome of a write exchange that tried to drive this coil
    /// to `value`.
    ///
    /// An accepted write commits the new value; a timeout or a transport
    /// failure degrades the coil to `Unknown` and propagates the error —
    /// the tracked value never stays at a stale `On`/`Off`.
    pub fn set_coil(&mut self, value: bool, outcome: &WriteOutcome) -> (r: Result<
        CoilUpdate,
        StateError,
    >)
        ensures
            final(self).same_entry(*old(self)),
            match outcome {
                WriteOutcome::Accepted => final(self).status == coil_value_of(value) && r
                    == Ok::<CoilUpdate, StateError>(final(self).spec_update()),
                WriteOutcome::Timeout => final(self).status == CoilValue::Unknown && r == Err::<
                    CoilUpdate,
                    StateError,
                >(StateError::Timeout),
                WriteOutcome::Failed(m) => final(self).status == CoilValue::Unknown && r == Err::<
                    CoilUpdate,
                    StateError,
                >(StateError::Bus(*m)),
            },
    {
        match outcome {
            WriteOutcome::Accepted => {
                self.status = CoilValue::from(value);
                Ok(self.as_update())
            },
            WriteOutcome::Timeout => {
                self.status = CoilValue::Unknown;
                Err(StateError::Timeout)
            },
            WriteOutcome::Failed(m) => {
                self.status = CoilValue::Unknown;
                Err(StateError::Bus(m.clone()))
            },
        }
    }
}

/// Whether the coil configuration carries the tag label `t`.
pub open spec fn coil_has_tag(cc: CoilConfig, t: Seq<char>) -> bool {
    exists|j: int| 0 <= j < cc.tags@.len() && cc.tags@[j]@ == t
}

/// One entry of the derived tag index: a label and the indices (into the
/// coil list) of every coil carrying it.
#[derive(Debug, Clone, PartialEq, Eq)]
pub struct TagEntry {
    /// The tag label.
    pub name: String,
    /// Indices of the member coils, in ascending order.
    pub coils: Vec<usize>,
}

/// The live state store: every device's and every coil's state, and the
/// derived tag index. Built once from the topology; entries are never added
/// or removed afterwards.
#[derive(Debug, Clone, PartialEq, Eq)]
pub struct BusState {
    pub devices: Vec<DeviceState>,
    pub coils: Vec<CoilState>,
    pub tags: Vec<TagEntry>,
}

impl BusState {
    /// Device names are pairwise distinct.
    pub open spec fn devices_wf(self) -> bool {
        forall|i: int, j: int|
            0 <= i < j < self.devices@.len() ==> self.devices@[i].name@ != self.devices@[j].name@
    }

    /// The coil at index `i` points at its owning device correctly.
    pub open spec fn coil_entry_wf(self, i: int) -> bool {
        &&& self.coils@[i].device_index < self.devices@.len()
        &&& self.devices@[self.coils@[i].device_index as int].name@ == self.coils@[i].config.device@
        &&& self.coils@[i].device_address == self.devices@[self.coils@[i].device_index as int].config.modbus_address
    }

    /// Coil names are pairwise distinct and every coil resolves its device.
    pub open spec fn coils_wf(self) -> bool {
        &&& forall|i: int, j: int|
            0 <= i < j < self.coils@.len() ==> self.coils@[i].name@ != self.coils@[j].name@
        &&& forall|i: int| 0 <= i < self.coils@.len() ==> self.coil_entry_wf(i)
    }

    /// The group of the tag at index `k` lists coil indices in strictly
    /// ascending order, and every member really carries the label.
    pub open spec fn tag_entry_wf(self, k: int) -> bool {
        &&& forall|j: int|
            0 <= j < self.tags@[k].coils@.len() ==> (#[trigger] self.tags@[k].coils@[j])
                < self.coils@.len()
        &&& forall|j: int|
            0 <= j < self.tags@[k].coils@.len() ==> coil_has_tag(
                #[trigger] self.coils@[self.tags@[k].coils@[j] as int].config,
                self.tags@[k].name@,
            )
        &&& forall|j1: int, j2: int|
            0 <= j1 < j2 < self.tags@[k].coils@.len() ==> self.tags@[k].coils@[j1]
                < self.tags@[k].coils@[j2]
    }

    /// The tag index is sound and complete for the coil list: labels are
    /// distinct, every group member carries the label, every carrier is in
    /// the group, and every carried label has an entry.
    pub open spec fn tags_wf(self) -> bool {
        &&& forall|k: int, l: int|
            0 <= k < l < self.tags@.len() ==> self.tags@[k].name@ != self.tags@[l].name@
        &&& forall|k: int| 0 <= k < self.tags@.len() ==> self.tag_entry_wf(k)
        &&& forall|k: int, i: int|
            0 <= k < self.tags@.len() && 0 <= i < self.coils@.len() && coil_has_tag(
                #[trigger] self.coils@[i].config,
                #[trigger] self.tags@[k].name@,
            ) ==> self.tags@[k].coils@.contains(i as usize)
        &&& forall|i: int, j: int|
            0 <= i < self.coils@.len() && 0 <= j < self.coils@[i].config.tags@.len()
                ==> self.spec_has_tag(#[trigger] self.coils@[i].config.tags@[j]@)
    }

    /// Well-formedness of the whole store.
    pub open spec fn wf(self) -> bool {
        &&& self.devices_wf()
        &&& self.coils_wf()
        &&& self.tags_wf()
    }

    /// Some device entry carries this name.
    pub open spec fn spec_has_device(self, name: Seq<char>) -> bool {
        exists|i: int| 0 <= i < self.devices@.len() && self.devices@[i].name@ == name
    }

    /// Some coil entry carries this name.
    pub open spec fn spec_has_coil(self, name: Seq<char>) -> bool {
        exists|i: int| 0 <= i < self.coils@.len() && self.coils@[i].name@ == name
    }

    /// Some tag entry carries this label.
    pub open spec fn spec_has_tag(self, name: Seq<char>) -> bool {
        exists|k: int| 0 <= k < self.tags@.len() && self.tags@[k].name@ == name
    }

    /// Index of the device entry of this name.
    pub open spec fn spec_device_index(self, name: Seq<char>) -> int {
        choose|i: int| 0 <= i < self.devices@.len() && self.devices@[i].name@ == name
    }

    /// Index of the coil entry of this name.
    pub open spec fn spec_coil_index(self, name: Seq<char>) -> int {
        choose|i: int| 0 <= i < self.coils@.len() && self.coils@[i].name@ == name
    }

    /// Index of the tag entry of this label.
    pub open spec fn spec_tag_index(self, name: Seq<char>) -> int {
        choose|k: int| 0 <= k < self.tags@.len() && self.tags@[k].name@ == name
    }

    /// Look up one device's live state by name.
    pub fn device(&self, name: &str) -> (r: Result<&DeviceState, StateError>)
        requires
            self.wf(),
        ensures
            self.spec_has_device(name@) ==> r == Ok::<&DeviceState, StateError>(
                &self.devices@[self.spec_device_index(name@)],
            ),
            !self.spec_has_device(name@) ==> (r matches Err(e) && e matches
                StateError::DeviceNotFound(n) && n@ == name@),
    {
        match find_device_index(&self.devices, name) {
            Some(i) => {
                proof {
                    assert(self.spec_has_device(name@));
                    let w = self.spec_device_index(name@);
                    assert(self.devices@[w].name@ == name@);
                    assert(w == i) by {
                        if w != i {
                            assert(self.devices@[w].name@ != self.devices@[i as int].name@);
                        }
                    }
                }
                Ok(&self.devices[i])
            },
            None => Err(StateError::DeviceNotFound(string_clone_str(name))),
        }
    }

    /// Look up one coil's live state by name.
    pub fn coil(&self, name: &str) -> (r: Result<&CoilState, StateError>)
        requires
            self.wf(),
        ensures
            self.spec_has_coil(name@) ==> r == Ok::<&CoilState, StateError>(
                &self.coils@[self.spec_coil_index(name@)],
            ),
            !self.spec_has_coil(name@) ==> (r matches Err(e) && e matches
                StateError::CoilNotFound(n) && n@ == name@),
    {
        match find_coil_index(&self.coils, name) {
            Some(i) => {
                proof {
                    assert(self.spec_has_coil(name@));
                    let w = self.spec_coil_index(name@);
                    assert(self.coils@[w].name@ == name@);
                    assert(w == i) by {
                        if w != i {
                            assert(self.coils@[w].name@ != self.coils@[i as int].name@);
                        }
                    }
                }
                Ok(&self.coils[i])
            },
            None => Err(StateError::CoilNotFound(string_clone_str(name))),
        }
    }

    /// Look up one tag's entry by label.
    pub fn tag(&self, name: &str) -> (r: Result<&TagEntry, StateError>)
        requires
            self.wf(),
        ensures
            self.spec_has_tag(name@) ==> r == Ok::<&TagEntry, StateError>(
                &self.tags@[self.spec_tag_index(name@)],
            ),
            !self.spec_has_tag(name@) ==> (r matches Err(e) && e matches
                StateError::TagNotFound(n) && n@ == name@),
    {
        match find_tag_index(&self.tags, name) {
            Some(k) => {
                proof {
                    assert(self.spec_has_tag(name@));
                    let w = self.spec_tag_index(name@);
                    assert(self.tags@[w].name@ == name@);
                    assert(w == k) by {
                        if w != k {
                            assert(self.tags@[w].name@ != self.tags@[k as int].name@);
                        }
                    }
                }
                Ok(&self.tags[k])
            },
            None => Err(StateError::TagNotFound(string_clone_str(name))),
        }
    }

    /// The store is exactly what a fresh build from this topology yields:
    /// one entry per device and per coil, in the topology's order, nothing
    /// probed and nothing written yet.
    pub open spec fn matches_config(self, c: Config) -> bool {
        &&& self.devices@.len() == c.devices@.len()
        &&& forall|i: int|
            0 <= i < c.devices@.len() ==> {
                &&& (#[trigger] self.devices@[i]).name == c.devices@[i].0
                &&& self.devices@[i].config == c.devices@[i].1
                &&& self.devices@[i].version is None
                &&& !self.devices@[i].seen
            }
        &&& self.coils@.len() == c.coils@.len()
        &&& forall|i: int|
            0 <= i < c.coils@.len() ==> {
                &&& (#[trigger] self.coils@[i]).name == c.coils@[i].0
                &&& self.coils@[i].config == c.coils@[i].1
                &&& self.coils@[i].status == CoilValue::Unknown
            }
    }

    /// Build the live state store from the topology, validating it.
    ///
    /// Accepts the topology exactly when it is valid: device and coil names
    /// unique, every coil's device reference resolving, no tag label twice
    /// on one coil. The store starts with every coil `Unknown` and every
    /// device unprobed.
    pub fn try_from_config(config: Config) -> (r: Result<BusState, ConfigError>)
        ensures
            r is Ok <==> crate::config::config_valid(config),
            r matches Ok(s) ==> s.wf() && s.matches_config(config),
            r matches Err(e) ==> match e {
                ConfigError::DuplicateDevice { name } => exists|i: int, j: int|
                    0 <= i < j < config.devices@.len() && config.devices@[i].0@
                        == config.devices@[j].0@ && config.devices@[j].0 == name,
                ConfigError::DuplicateCoil { name } => exists|i: int, j: int|
                    0 <= i < j < config.coils@.len() && config.coils@[i].0@
                        == config.coils@[j].0@ && config.coils@[j].0 == name,
                ConfigError::DuplicateTag { coil, tag } => exists|i: int|
                    0 <= i < config.coils@.len() && config.coils@[i].0 == coil && exists|
                        j1: int,
                        j2: int,
                    |
                        0 <= j1 < j2 < config.coils@[i].1.tags@.len()
                            && config.coils@[i].1.tags@[j1]@ == config.coils@[i].1.tags@[j2]@
                            && config.coils@[i].1.tags@[j2]@ == tag@,
                ConfigError::UnknownDevice { coil, device } => exists|i: int|
                    0 <= i < config.coils@.len() && config.coils@[i].0 == coil
                        && config.coils@[i].1.device == device && !crate::config::spec_has_device(
                        config,
                        device@,
                    ),
            },
    {
        let Config { devices: device_entries, coils: coil_entries } = config;
        let devices = match build_devices(device_entries) {
            Ok(d) => d,
            Err(e) => {
                return Err(e);
            },
        };
        let coils = match build_coils(coil_entries, &devices) {
            Ok(c) => c,
            Err(e) => {
                proof {
                    // A coil-side rejection speaks of the whole topology:
                    // the built device list carries the same names.
                    if let ConfigError::UnknownDevice { coil: cn, device: dn } = &e {
                        if crate::config::spec_has_device(config, dn@) {
                            let w = choose|w: int|
                                0 <= w < config.devices@.len() && config.devices@[w].0@ == dn@;
                            assert(devices@[w].name@ == dn@);
                            assert(has_device_state(devices@, dn@));
                            assert(false);
                        }
                    }
                }
                return Err(e);
            },
        };
        let tags = build_tags(&coils);
        let s = BusState { devices, coils, tags };
        proof {
            let c = config;
            // Validity of the topology follows from both builders accepting.
            assert(crate::config::config_valid(c)) by {
                assert forall|i: int| 0 <= i < c.coils@.len() implies crate::config::spec_has_device(
                    c,
                    #[trigger] c.coils@[i].1.device@,
                ) by {
                    assert(has_device_state(s.devices@, c.coils@[i].1.device@));
                    let w = choose|w: int|
                        0 <= w < s.devices@.len() && s.devices@[w].name@ == c.coils@[i].1.device@;
                    assert(c.devices@[w].0@ == c.coils@[i].1.device@);
                }
            }
            assert(s.wf()) by {
                assert(s.devices_wf()) by {
                    assert forall|i: int, j: int|
                        0 <= i < j < s.devices@.len() implies s.devices@[i].name@
                        != s.devices@[j].name@ by {
                        assert(c.devices@[i].0@ != c.devices@[j].0@);
                    }
                }
                assert(s.coils_wf()) by {
                    assert forall|i: int, j: int|
                        0 <= i < j < s.coils@.len() implies s.coils@[i].name@
                        != s.coils@[j].name@ by {
                        assert(c.coils@[i].0@ != c.coils@[j].0@);
                    }
                    assert(forall|i: int| 0 <= i < s.coils@.len() ==> s.coil_entry_wf(i));
                }
                assert(s.tags_wf()) by {
                    broadcast use vstd::std_specs::vec::axiom_spec_len;

                    assert(vstd::std_specs::vec::spec_vec_len(&s.coils) == s.coils@.len());
                    assert(tag_inv(s.tags@, s.coils@, s.coils@.len() as int, 0));
                    assert forall|k: int| 0 <= k < s.tags@.len() implies s.tag_entry_wf(k) by {
                        assert forall|a: int|
                            0 <= a < s.tags@[k].coils@.len() implies s.tags@[k].coils@[a]
                            < s.coils@.len() && coil_has_tag(
                            #[trigger] s.coils@[s.tags@[k].coils@[a] as int].config,
                            s.tags@[k].name@,
                        ) by {
                            assert(s.tags@[k].coils@[a] < tag_bound(
                                s.tags@,
                                s.coils@,
                                s.coils@.len() as int,
                                0,
                                k,
                            ));
                            assert(s.tags@[k].coils@.contains(s.tags@[k].coils@[a]));
                        }
                    }
                    assert forall|k: int, i: int|
                        0 <= k < s.tags@.len() && 0 <= i < s.coils@.len() && coil_has_tag(
                            #[trigger] s.coils@[i].config,
                            #[trigger] s.tags@[k].name@,
                        ) implies s.tags@[k].coils@.contains(i as usize) by {
                        assert(s.tags@[k].coils@.contains(i as usize) <==> ((i as usize as int)
                            < tag_bound(s.tags@, s.coils@, s.coils@.len() as int, 0, k)
                            && coil_has_tag(s.coils@[i].config, s.tags@[k].name@)));
                    }
                    assert forall|i: int, j: int|
                        0 <= i < s.coils@.len() && 0 <= j < s.coils@[i].config.tags@.len() implies
                        s.spec_has_tag(#[trigger] s.coils@[i].config.tags@[j]@) by {
                        assert(has_entry(s.tags@, s.coils@[i].config.tags@[j]@));
                        let w = choose|w: int|
                            0 <= w < s.tags@.len() && s.tags@[w].name@ == s.coils@[i].config.tags@[j]@;
                        assert(0 <= w < s.tags@.len() && s.tags@[w].name@ == s.coils@[i].config.tags@[j]@);
                    }
                }
            }
            assert(s.matches_config(c));
        }
        Ok(s)
    }

    /// Drop everything learned from the hardware: every coil to `Unknown`,
    /// every device to unseen with no version. Touches no hardware; used
    /// after a detected bus-wide disturbance, before a resync.
    pub fn reset(&mut self)
        ensures
            final(self).devices@.len() == old(self).devices@.len(),
            forall|i: int|
                0 <= i < old(self).devices@.len() ==> {
                    &&& (#[trigger] final(self).devices@[i]).name == old(self).devices@[i].name
                    &&& final(self).devices@[i].config == old(self).devices@[i].config
                    &&& final(self).devices@[i].version is None
                    &&& !final(self).devices@[i].seen
                },
            final(self).coils@.len() == old(self).coils@.len(),
            forall|i: int|
                0 <= i < old(self).coils@.len() ==> {
                    &&& (#[trigger] final(self).coils@[i]).same_entry(old(self).coils@[i])
                    &&& final(self).coils@[i].status == CoilValue::Unknown
                },
            final(self).tags == old(self).tags,
            old(self).wf() ==> final(self).wf(),
    {
        let nd = self.devices.len();
        let mut i: usize = 0;
        while i < nd
            invariant
                nd == self.devices@.len(),
                i <= nd,
                self.coils == old(self).coils,
                self.tags == old(self).tags,
                self.devices@.len() == old(self).devices@.len(),
                forall|k: int|
                    0 <= k < i ==> {
                        &&& (#[trigger] self.devices@[k]).name == old(self).devices@[k].name
                        &&& self.devices@[k].config == old(self).devices@[k].config
                        &&& self.devices@[k].version is None
                        &&& !self.devices@[k].seen
                    },
                forall|k: int|
                    i <= k < nd ==> #[trigger] self.devices@[k] == old(self).devices@[k],
        decreases nd - i,
        {
            self.devices[i].version = None;
            self.devices[i].seen = false;
            i += 1;
        }
        let nc = self.coils.len();
        let mut j: usize = 0;
        while j < nc
            invariant
                nc == self.coils@.len(),
                j <= nc,
                self.tags == old(self).tags,
                self.devices@.len() == old(self).devices@.len(),
                forall|k: int|
                    0 <= k < self.devices@.len() ==> {
                        &&& (#[trigger] self.devices@[k]).name == old(self).devices@[k].name
                        &&& self.devices@[k].config == old(self).devices@[k].config
                        &&& self.devices@[k].version is None
                        &&& !self.devices@[k].seen
                    },
                self.coils@.len() == old(self).coils@.len(),
                forall|k: int|
                    0 <= k < j ==> {
                        &&& (#[trigger] self.coils@[k]).same_entry(old(self).coils@[k])
                        &&& self.coils@[k].status == CoilValue::Unknown
                    },
                forall|k: int| j <= k < nc ==> #[trigger] self.coils@[k] == old(self).coils@[k],
        decreases nc - j,
        {
            self.coils[j].status = CoilValue::Unknown;
            j += 1;
        }
        proof {
            if old(self).wf() {
                lemma_wf_after_tracked_change(*old(self), *self);
            }
        }
    }

    /// Snapshot one coil by name; a pure read, no bus access.
    pub fn get_coil(&self, name: &str) -> (r: Result<CoilUpdate, StateError>)
        requires
            self.wf(),
        ensures
            self.spec_has_coil(name@) ==> r == Ok::<CoilUpdate, StateError>(
                self.coils@[self.spec_coil_index(name@)].spec_update(),
            ),
            !self.spec_has_coil(name@) ==> (r matches Err(e) && e matches
                StateError::CoilNotFound(n) && n@ == name@),
    {
        match self.coil(name) {
            Ok(c) => c.get_coil(),
            Err(e) => Err(e),
        }
    }

    /// The bus exchange that a write of `value` to this coil issues.
    ///
    /// Resolving the name touches no state; the exchange itself is
    /// performed outside and its outcome handed to [`Self::set_coil`].
    pub fn coil_write_op(&self, name: &str, value: bool) -> (r: Result<BusOp, StateError>)
        requires
            self.wf(),
        ensures
            self.spec_has_coil(name@) ==> r == Ok::<BusOp, StateError>(
                BusOp::WriteCoil {
                    device_addr: self.coils@[self.spec_coil_index(name@)].device_address,
                    coil_addr: self.coils@[self.spec_coil_index(name@)].config.address,
                    value,
                },
            ),
            !self.spec_has_coil(name@) ==> (r matches Err(e) && e matches
                StateError::CoilNotFound(n) && n@ == name@),
    {
        match self.coil(name) {
            Ok(c) => Ok(
                BusOp::WriteCoil {
                    device_addr: c.device_address,
                    coil_addr: c.config.address,
                    value,
                },
            ),
            Err(e) => Err(e),
        }
    }

    /// Record the outcome of a write exchange that tried to drive the named
    /// coil to `value`.
    ///
    /// An accepted write commits the new value; a timeout or a transport
    /// failure degrades the coil to `Unknown` and propagates the error. No
    /// other entry is touched; an unknown name touches nothing.
    pub fn set_coil(&mut self, name: &str, value: bool, outcome: &WriteOutcome) -> (r: Result<
        CoilUpdate,
        StateError,
    >)
        requires
            old(self).wf(),
        ensures
            final(self).wf(),
            final(self).devices == old(self).devices,
            final(self).tags == old(self).tags,
            !old(self).spec_has_coil(name@) ==> *final(self) == *old(self) && (r matches Err(e)
                && e matches StateError::CoilNotFound(n) && n@ == name@),
            old(self).spec_has_coil(name@) ==> ({
                let i = old(self).spec_coil_index(name@);
                &&& final(self).coils@.len() == old(self).coils@.len()
                &&& final(self).coils@ == old(self).coils@.update(i, final(self).coils@[i])
                &&& final(self).coils@[i].same_entry(old(self).coils@[i])
                &&& match outcome {
                    WriteOutcome::Accepted => final(self).coils@[i].status == coil_value_of(value)
                        && r == Ok::<CoilUpdate, StateError>(
                        final(self).coils@[i].spec_update(),
                    ),
                    WriteOutcome::Timeout => final(self).coils@[i].status == CoilValue::Unknown
                        && r == Err::<CoilUpdate, StateError>(StateError::Timeout),
                    WriteOutcome::Failed(m) => final(self).coils@[i].status == CoilValue::Unknown
                        && r == Err::<CoilUpdate, StateError>(StateError::Bus(*m)),
                }
            }),
    {
        let idx = match find_coil_index(&self.coils, name) {
            Some(i) => i,
            None => {
                return Err(StateError::CoilNotFound(string_clone_str(name)));
            },
        };
        proof {
            assert(self.spec_has_coil(name@));
            let w = self.spec_coil_index(name@);
            assert(self.coils@[w].name@ == name@);
            assert(w == idx) by {
                if w != idx {
                    assert(self.coils@[w].name@ != self.coils@[idx as int].name@);
                }
            }
        }
        let r = self.coils[idx].set_coil(value, outcome);
        proof {
            assert(self.coils@ =~= old(self).coils@.update(idx as int, self.coils@[idx as int]));
            assert forall|i: int|
                0 <= i < old(self).coils@.len() implies (#[trigger] self.coils@[i]).same_entry(
                old(self).coils@[i],
            ) by {
                if i != idx {
                    assert(self.coils@[i] == old(self).coils@[i]);
                }
            }
            lemma_wf_after_tracked_change(*old(self), *self);
        }
        r
    }

    /// Snapshot every coil carrying the named tag, in the tag's order; a
    /// pure read, no bus access.
    pub fn get_tag(&self, name: &str) -> (r: Result<Vec<CoilUpdate>, StateError>)
        requires
            self.wf(),
        ensures
            !self.spec_has_tag(name@) ==> (r matches Err(e) && e matches StateError::TagNotFound(
                n,
            ) && n@ == name@),
            self.spec_has_tag(name@) ==> ({
                let k = self.spec_tag_index(name@);
                &&& r matches Ok(us)
                &&& us@.len() == self.tags@[k].coils@.len()
                &&& forall|a: int|
                    0 <= a < us@.len() ==> us@[a]
                        == self.coils@[self.tags@[k].coils@[a] as int].spec_update()
            }),
    {
        let k = match find_tag_index(&self.tags, name) {
            Some(k) => k,
            None => {
                return Err(StateError::TagNotFound(string_clone_str(name)));
            },
        };
        proof {
            assert(self.spec_has_tag(name@));
            let w = self.spec_tag_index(name@);
            assert(self.tags@[w].name@ == name@);
            assert(w == k) by {
                if w != k {
                    assert(self.tags@[w].name@ != self.tags@[k as int].name@);
                }
            }
            assert(self.tag_entry_wf(k as int));
        }
        let g_len = self.tags[k].coils.len();
        let mut us: Vec<CoilUpdate> = Vec::new();
        let mut a: usize = 0;
        while a < g_len
            invariant
                self.wf(),
                k < self.tags@.len(),
                g_len == self.tags@[k as int].coils@.len(),
                a <= g_len,
                us@.len() == a,
                forall|b: int|
                    0 <= b < a ==> us@[b] == self.coils@[self.tags@[k as int].coils@[b] as int].spec_update(),
            decreases g_len - a,
        {
            proof {
                assert(self.tag_entry_wf(k as int));
            }
            let ci = self.tags[k].coils[a];
            us.push(self.coils[ci].as_update());
            a += 1;
        }
        Ok(us)
    }

    /// The sequence of bus exchanges that driving every coil of the named
    /// tag to `value` issues: one write per member coil, in the tag's
    /// order. Never performed in parallel — the coils may share a card or
    /// the bus itself.
    pub fn tag_write_ops(&self, name: &str, value: bool) -> (r: Result<Vec<BusOp>, StateError>)
        requires
            self.wf(),
        ensures
            !self.spec_has_tag(name@) ==> (r matches Err(e) && e matches StateError::TagNotFound(
                n,
            ) && n@ == name@),
            self.spec_has_tag(name@) ==> ({
                let k = self.spec_tag_index(name@);
                &&& r matches Ok(ops)
                &&& ops@.len() == self.tags@[k].coils@.len()
                &&& forall|a: int|
                    #![trigger ops@[a]]
                    0 <= a < ops@.len() ==> ({
                        let ci = self.tags@[k].coils@[a] as int;
                        ops@[a] == (BusOp::WriteCoil {
                            device_addr: self.coils@[ci].device_address,
                            coil_addr: self.coils@[ci].config.address,
                            value,
                        })
                    })
            }),
    {
        let k = match find_tag_index(&self.tags, name) {
            Some(k) => k,
            None => {
                return Err(StateError::TagNotFound(string_clone_str(name)));
            },
        };
        proof {
            assert(self.spec_has_tag(name@));
            let w = self.spec_tag_index(name@);
            assert(self.tags@[w].name@ == name@);
            assert(w == k) by {
                if w != k {
                    assert(self.tags@[w].name@ != self.tags@[k as int].name@);
                }
            }
            assert(self.tag_entry_wf(k as int));
        }
        let g_len = self.tags[k].coils.len();
        let mut ops: Vec<BusOp> = Vec::new();
        let mut a: usize = 0;
        while a < g_len
            invariant
                self.wf(),
                k < self.tags@.len(),
                g_len == self.tags@[k as int].coils@.len(),
                a <= g_len,
                ops@.len() == a,
                forall|b: int|
                    #![trigger ops@[b]]
                    0 <= b < a ==> ({
                        let ci = self.tags@[k as int].coils@[b] as int;
                        ops@[b] == (BusOp::WriteCoil {
                            device_addr: self.coils@[ci].device_address,
                            coil_addr: self.coils@[ci].config.address,
                            value,
                        })
                    }),
            decreases g_len - a,
        {
            proof {
                assert(self.tag_entry_wf(k as int));
            }
            let ci = self.tags[k].coils[a];
            ops.push(
                BusOp::WriteCoil {
                    device_addr: self.coils[ci].device_address,
                    coil_addr: self.coils[ci].config.address,
                    value,
                },
            );
            a += 1;
        }
        Ok(ops)
    }

    /// Record the outcomes of the write exchanges that tried to drive every
    /// coil of the named tag to `value`, `outcomes[a]` belonging to the
    /// tag's `a`-th coil.
    ///
    /// Failure stays with the coil it hit: that coil is degraded to
    /// `Unknown` and its slot of the result carries the error, while every
    /// accepted write stays committed. Coils outside the tag are untouched.
    /// Whether the call failed overall is told by [`tag_result_ok`].
    pub fn set_tag(&mut self, name: &str, value: bool, outcomes: &Vec<WriteOutcome>) -> (r: Result<
        Vec<Result<CoilUpdate, StateError>>,
        StateError,
    >)
        requires
            old(self).wf(),
            old(self).spec_has_tag(name@) ==> outcomes@.len() == old(self).tags@[old(
                self,
            ).spec_tag_index(name@)].coils@.len(),
        ensures
            final(self).wf(),
            final(self).devices == old(self).devices,
            final(self).tags == old(self).tags,
            !old(self).spec_has_tag(name@) ==> *final(self) == *old(self) && (r matches Err(e)
                && e matches StateError::TagNotFound(n) && n@ == name@),
            old(self).spec_has_tag(name@) ==> ({
                let k = old(self).spec_tag_index(name@);
                let g = old(self).tags@[k].coils@;
                &&& r matches Ok(rs)
                &&& rs@.len() == g.len()
                &&& final(self).coils@.len() == old(self).coils@.len()
                &&& forall|a: int|
                    #![trigger g[a]]
                    0 <= a < g.len() ==> ({
                        let ci = g[a] as int;
                        &&& final(self).coils@[ci].same_entry(old(self).coils@[ci])
                        &&& match outcomes@[a] {
                            WriteOutcome::Accepted => final(self).coils@[ci].status
                                == coil_value_of(value) && rs@[a] == Ok::<
                                CoilUpdate,
                                StateError,
                            >(final(self).coils@[ci].spec_update()),
                            WriteOutcome::Timeout => final(self).coils@[ci].status
                                == CoilValue::Unknown && rs@[a] == Err::<
                                CoilUpdate,
                                StateError,
                            >(StateError::Timeout),
                            WriteOutcome::Failed(m) => final(self).coils@[ci].status
                                == CoilValue::Unknown && rs@[a] == Err::<
                                CoilUpdate,
                                StateError,
                            >(StateError::Bus(m)),
                        }
                    })
                &&& forall|c: int|
                    0 <= c < old(self).coils@.len() && !g.contains(c as usize) ==> final(self).coils@[c] == old(self).coils@[c]
            }),
    {
        let k = match find_tag_index(&self.tags, name) {
            Some(k) => k,
            None => {
                return Err(StateError::TagNotFound(string_clone_str(name)));
            },
        };
        proof {
            assert(self.spec_has_tag(name@));
            let w = self.spec_tag_index(name@);
            assert(self.tags@[w].name@ == name@);
            assert(w == k) by {
                if w != k {
                    assert(self.tags@[w].name@ != self.tags@[k as int].name@);
                }
            }
            assert(self.tag_entry_wf(k as int));
        }
        let g_len = self.tags[k].coils.len();
        let mut rs: Vec<Result<CoilUpdate, StateError>> = Vec::new();
        let mut a: usize = 0;
        while a < g_len
            invariant
                old(self).wf(),
                self.devices == old(self).devices,
                self.tags == old(self).tags,
                self.coils@.len() == old(self).coils@.len(),
                k < self.tags@.len(),
                self.tags@[k as int].name@ == name@,
                g_len == self.tags@[k as int].coils@.len(),
                outcomes@.len() == g_len,
                a <= g_len,
                rs@.len() == a,
                forall|i: int|
                    0 <= i < old(self).coils@.len() ==> (#[trigger] self.coils@[i]).same_entry(
                        old(self).coils@[i],
                    ),
                forall|c: int|
                    0 <= c < old(self).coils@.len() && !old(self).tags@[k as int].coils@.take(
                        a as int,
                    ).contains(c as usize) ==> #[trigger] self.coils@[c] == old(self).coils@[c],
                forall|b: int|
                    #![trigger rs@[b]]
                    0 <= b < a ==> ({
                        let ci = old(self).tags@[k as int].coils@[b] as int;
                        &&& match outcomes@[b] {
                            WriteOutcome::Accepted => self.coils@[ci].status == coil_value_of(
                                value,
                            ) && rs@[b] == Ok::<CoilUpdate, StateError>(
                                self.coils@[ci].spec_update(),
                            ),
                            WriteOutcome::Timeout => self.coils@[ci].status == CoilValue::Unknown
                                && rs@[b] == Err::<CoilUpdate, StateError>(StateError::Timeout),
                            WriteOutcome::Failed(m) => self.coils@[ci].status
                                == CoilValue::Unknown && rs@[b] == Err::<CoilUpdate, StateError>(
                                StateError::Bus(m),
                            ),
                        }
                    }),
            decreases g_len - a,
        {
            proof {
                assert(old(self).tag_entry_wf(k as int));
            }
            let ci = self.tags[k].coils[a];
            proof {
                assert(ci == old(self).tags@[k as int].coils@[a as int]);
                assert(ci < self.coils@.len());
            }
            let ghost coils_before = self.coils@;
            let outcome = &outcomes[a];
            let one = self.coils[ci].set_coil(value, outcome);
            rs.push(one);
            proof {
                // The walked members are strictly ascending, so this write
                // hit a coil no earlier step touched, and earlier results
                // stay in force.
                let g = old(self).tags@[k as int].coils@;
                assert(self.coils@ =~= coils_before.update(ci as int, self.coils@[ci as int]));
                assert forall|b: int| #![trigger g[b]] 0 <= b < a + 1 implies ({
                    let cb = g[b] as int;
                    &&& match outcomes@[b] {
                        WriteOutcome::Accepted => self.coils@[cb].status == coil_value_of(value)
                            && rs@[b] == Ok::<CoilUpdate, StateError>(
                            self.coils@[cb].spec_update(),
                        ),
                        WriteOutcome::Timeout => self.coils@[cb].status == CoilValue::Unknown
                            && rs@[b] == Err::<CoilUpdate, StateError>(StateError::Timeout),
                        WriteOutcome::Failed(m) => self.coils@[cb].status == CoilValue::Unknown
                            && rs@[b] == Err::<CoilUpdate, StateError>(StateError::Bus(m)),
                    }
                }) by {
                    if b < a {
                        assert(g[b] < g[a as int]);
                        assert(self.coils@[g[b] as int] == coils_before[g[b] as int]);
                    }
                }
                assert forall|c: int|
                    0 <= c < old(self).coils@.len() && !g.take(a as int + 1).contains(
                        c as usize,
                    ) implies #[trigger] self.coils@[c] == old(self).coils@[c] by {
                    assert(g.take(a as int + 1)[a as int] == g[a as int]);
                    if c != ci {
                        assert forall|x: usize| g.take(a as int).contains(x) implies g.take(
                            a as int + 1,
                        ).contains(x) by {
                            let bx = choose|bx: int|
                                0 <= bx < a && g.take(a as int)[bx] == x;
                            assert(g.take(a as int + 1)[bx] == x);
                        }
                        assert(self.coils@[c] == coils_before[c]);
                    } else {
                        assert(g.take(a as int + 1).contains(ci));
                        assert(false);
                    }
                }
            }
            a += 1;
        }
        proof {
            assert(self.tags@[k as int].coils@.take(g_len as int) =~= self.tags@[k as int].coils@);
            lemma_wf_after_tracked_change(*old(self), *self);
        }
        Ok(rs)
    }

    /// Record the outcomes of probing every configured card's hardware
    /// version, `outcomes[i]` belonging to the `i`-th device entry.
    ///
    /// A failed probe leaves only that card unseen; the walk always covers
    /// the whole fleet. Returns how many cards were seen.
    pub fn check_state_from_device(&mut self, outcomes: &Vec<ProbeOutcome>) -> (seen: usize)
        requires
            old(self).wf(),
            outcomes@.len() == old(self).devices@.len(),
        ensures
            final(self).wf(),
            final(self).coils == old(self).coils,
            final(self).tags == old(self).tags,
            final(self).devices@.len() == old(self).devices@.len(),
            forall|i: int|
                0 <= i < old(self).devices@.len() ==> {
                    &&& (#[trigger] final(self).devices@[i]).name == old(self).devices@[i].name
                    &&& final(self).devices@[i].config == old(self).devices@[i].config
                    &&& match outcomes@[i] {
                        ProbeOutcome::Version(v) => final(self).devices@[i].version == Some(v)
                            && final(self).devices@[i].seen,
                        ProbeOutcome::Timeout => final(self).devices@[i].version is None && !final(self).devices@[i].seen,
                        ProbeOutcome::Failed(m) => final(self).devices@[i].version is None
                            && !final(self).devices@[i].seen,
                    }
                },
            seen == probes_seen(outcomes@, old(self).devices@.len() as int),
    {
        let n = self.devices.len();
        let mut seen: usize = 0;
        let mut i: usize = 0;
        while i < n
            invariant
                old(self).wf(),
                n == old(self).devices@.len(),
                outcomes@.len() == n,
                i <= n,
                self.coils == old(self).coils,
                self.tags == old(self).tags,
                self.devices@.len() == n,
                seen <= i,
                seen == probes_seen(outcomes@, i as int),
                forall|l: int|
                    0 <= l < i ==> {
                        &&& (#[trigger] self.devices@[l]).name == old(self).devices@[l].name
                        &&& self.devices@[l].config == old(self).devices@[l].config
                        &&& match outcomes@[l] {
                            ProbeOutcome::Version(v) => self.devices@[l].version == Some(v)
                                && self.devices@[l].seen,
                            ProbeOutcome::Timeout => self.devices@[l].version is None
                                && !self.devices@[l].seen,
                            ProbeOutcome::Failed(m) => self.devices@[l].version is None
                                && !self.devices@[l].seen,
                        }
                    },
                forall|l: int| i <= l < n ==> #[trigger] self.devices@[l] == old(self).devices@[l],
            decreases n - i,
        {
            let outcome = &outcomes[i];
            let one = self.devices[i].check_state_from_device(outcome);
            if one.is_ok() {
                seen += 1;
            }
            proof {
                assert(probes_seen(outcomes@, i as int + 1) == probes_seen(outcomes@, i as int)
                    + if outcomes@[i as int] is Version {
                    1int
                } else {
                    0int
                });
            }
            i += 1;
        }
        proof {
            lemma_wf_after_tracked_change(*old(self), *self);
        }
        seen
    }

    /// Resync after a bus-wide disturbance: forget everything, then record
    /// a fresh probe of every card. Coils stay `Unknown` until written
    /// again; a failed probe leaves only that card unseen. Returns how many
    /// cards were seen.
    pub fn resync_all(&mut self, outcomes: &Vec<ProbeOutcome>) -> (seen: usize)
        requires
            old(self).wf(),
            outcomes@.len() == old(self).devices@.len(),
        ensures
            final(self).wf(),
            final(self).tags == old(self).tags,
            final(self).coils@.len() == old(self).coils@.len(),
            forall|i: int|
                0 <= i < old(self).coils@.len() ==> {
                    &&& (#[trigger] final(self).coils@[i]).same_entry(old(self).coils@[i])
                    &&& final(self).coils@[i].status == CoilValue::Unknown
                },
            final(self).devices@.len() == old(self).devices@.len(),
            forall|i: int|
                0 <= i < old(self).devices@.len() ==> {
                    &&& (#[trigger] final(self).devices@[i]).name == old(self).devices@[i].name
                    &&& final(self).devices@[i].config == old(self).devices@[i].config
                    &&& match outcomes@[i] {
                        ProbeOutcome::Version(v) => final(self).devices@[i].version == Some(v)
                            && final(self).devices@[i].seen,
                        ProbeOutcome::Timeout => final(self).devices@[i].version is None && !final(self).devices@[i].seen,
                        ProbeOutcome::Failed(m) => final(self).devices@[i].version is None
                            && !final(self).devices@[i].seen,
                    }
                },
            seen == probes_seen(outcomes@, old(self).devices@.len() as int),
    {
        self.reset();
        self.check_state_from_device(outcomes)
    }
}

/// How many of the first `n` probe outcomes carried a version.
pub open spec fn probes_seen(outcomes: Seq<ProbeOutcome>, n: int) -> int
    decreases n,
{
    if n <= 0 {
        0
    } else {
        probes_seen(outcomes, n - 1) + if outcomes[n - 1] is Version {
            1int
        } else {
            0int
        }
    }
}

/// Whether every constituent write of a tag fan-out was accepted: the
/// aggregate call fails overall exactly when at least one slot failed.
pub fn tag_result_ok(results: &Vec<Result<CoilUpdate, StateError>>) -> (ok: bool)
    ensures
        ok <==> forall|a: int| 0 <= a < results@.len() ==> (#[trigger] results@[a]) is Ok,
{
    let n = results.len();
    let mut a: usize = 0;
    while a < n
        invariant
            n == results@.len(),
            a <= n,
            forall|b: int| 0 <= b < a ==> (#[trigger] results@[b]) is Ok,
        decreases n - a,
    {
        if results[a].is_err() {
            return false;
        }
        a += 1;
    }
    true
}

/// Some entry of the device-state list carries this name.
pub open spec fn has_device_state(devices: Seq<DeviceState>, name: Seq<char>) -> bool {
    exists|d: int| 0 <= d < devices.len() && devices[d].name@ == name
}

/// Build the device-state list from the device entries, rejecting a
/// duplicate name. Consumes the entries: each one moves into its state.
#[verifier::loop_isolation(false)]
fn build_devices(entries: Vec<(String, DeviceConfig)>) -> (r: Result<
    Vec<DeviceState>,
    ConfigError,
>)
    ensures
        r is Ok <==> crate::config::names_unique(entries@),
        r matches Ok(ds) ==> {
            &&& ds@.len() == entries@.len()
            &&& forall|i: int|
                0 <= i < entries@.len() ==> {
                    &&& (#[trigger] ds@[i]).name == entries@[i].0
                    &&& ds@[i].config == entries@[i].1
                    &&& ds@[i].version is None
                    &&& !ds@[i].seen
                }
        },
        r matches Err(e) ==> (e matches ConfigError::DuplicateDevice { name } && exists|i: int, j: int|
            0 <= i < j < entries@.len() && entries@[i].0@ == entries@[j].0@ && entries@[j].0
                == name),
{
    let ghost orig = entries@;
    let mut rem = entries;
    let mut ds: Vec<DeviceState> = Vec::new();
    while rem.len() > 0
        invariant
            ds@.len() + rem@.len() == orig.len(),
            rem@ == orig.subrange(ds@.len() as int, orig.len() as int),
            forall|k: int|
                0 <= k < ds@.len() ==> {
                    &&& (#[trigger] ds@[k]).name == orig[k].0
                    &&& ds@[k].config == orig[k].1
                    &&& ds@[k].version is None
                    &&& !ds@[k].seen
                },
            forall|k: int, l: int| 0 <= k < l < ds@.len() ==> orig[k].0@ != orig[l].0@,
        decreases rem@.len(),
    {
        let ghost j = ds@.len() as int;
        let e = rem.remove(0);
        proof {
            assert(e == orig[j]);
            assert(rem@ =~= orig.subrange(j + 1, orig.len() as int));
        }
        if let Some(d) = find_device_index(&ds, e.0.as_str()) {
            proof {
                let i0 = d as int;
                assert(orig[i0].0@ == orig[j].0@);
                assert(orig[j].0 == e.0);
                assert(exists|a: int, b: int|
                    0 <= a < b < orig.len() && orig[a].0@ == orig[b].0@ && orig[b].0 == e.0) by {
                    assert(0 <= i0 < j < orig.len() && orig[i0].0@ == orig[j].0@ && orig[j].0
                        == e.0);
                }
                assert(!crate::config::names_unique(orig));
            }
            return Err(ConfigError::DuplicateDevice { name: e.0 });
        }
        ds.push(DeviceState { name: e.0, config: e.1, version: None, seen: false });
        proof {
            assert forall|k: int, l: int| 0 <= k < l < ds@.len() implies orig[k].0@
                != orig[l].0@ by {
                if l < j {
                } else {
                    assert(l == j);
                    assert(ds@[k].name == orig[k].0);
                }
            }
        }
    }
    proof {
        assert(ds@.len() == orig.len());
    }
    Ok(ds)
}

/// Build the coil-state list from the coil entries, resolving each coil's
/// device, rejecting a duplicate coil name, a repeated tag label on one
/// coil, and a reference to an unknown device. Consumes the entries.
#[verifier::loop_isolation(false)]
fn build_coils(entries: Vec<(String, CoilConfig)>, devices: &Vec<DeviceState>) -> (r: Result<
    Vec<CoilState>,
    ConfigError,
>)
    ensures
        r is Ok <==> {
            &&& crate::config::names_unique(entries@)
            &&& forall|i: int|
                0 <= i < entries@.len() ==> has_device_state(
                    devices@,
                    #[trigger] entries@[i].1.device@,
                )
            &&& forall|i: int|
                0 <= i < entries@.len() ==> crate::config::coil_tags_unique(
                    #[trigger] entries@[i].1,
                )
        },
        r matches Ok(cs) ==> {
            &&& cs@.len() == entries@.len()
            &&& forall|i: int|
                0 <= i < entries@.len() ==> {
                    &&& (#[trigger] cs@[i]).name == entries@[i].0
                    &&& cs@[i].config == entries@[i].1
                    &&& cs@[i].status == CoilValue::Unknown
                    &&& cs@[i].device_index < devices@.len()
                    &&& devices@[cs@[i].device_index as int].name@ == cs@[i].config.device@
                    &&& cs@[i].device_address == devices@[cs@[i].device_index as int].config.modbus_address
                }
        },
        r matches Err(e) ==> match e {
            ConfigError::DuplicateCoil { name } => exists|i: int, j: int|
                0 <= i < j < entries@.len() && entries@[i].0@ == entries@[j].0@ && entries@[j].0
                    == name,
            ConfigError::DuplicateTag { coil, tag } => exists|i: int|
                0 <= i < entries@.len() && entries@[i].0 == coil && exists|j1: int, j2: int|
                    0 <= j1 < j2 < entries@[i].1.tags@.len() && entries@[i].1.tags@[j1]@
                        == entries@[i].1.tags@[j2]@ && entries@[i].1.tags@[j2]@ == tag@,
            ConfigError::UnknownDevice { coil, device } => exists|i: int|
                0 <= i < entries@.len() && entries@[i].0 == coil && entries@[i].1.device == device
                    && !has_device_state(devices@, device@),
            _ => false,
        },
{
    let ghost orig = entries@;
    let mut rem = entries;
    let mut cs: Vec<CoilState> = Vec::new();
    while rem.len() > 0
        invariant
            cs@.len() + rem@.len() == orig.len(),
            rem@ == orig.subrange(cs@.len() as int, orig.len() as int),
            forall|k: int|
                0 <= k < cs@.len() ==> {
                    &&& (#[trigger] cs@[k]).name == orig[k].0
                    &&& cs@[k].config == orig[k].1
                    &&& cs@[k].status == CoilValue::Unknown
                    &&& cs@[k].device_index < devices@.len()
                    &&& devices@[cs@[k].device_index as int].name@ == cs@[k].config.device@
                    &&& cs@[k].device_address == devices@[cs@[k].device_index as int].config.modbus_address
                },
            forall|k: int, l: int| 0 <= k < l < cs@.len() ==> orig[k].0@ != orig[l].0@,
            forall|k: int|
                0 <= k < cs@.len() ==> crate::config::coil_tags_unique(#[trigger] orig[k].1),
            forall|k: int|
                0 <= k < cs@.len() ==> has_device_state(devices@, #[trigger] orig[k].1.device@),
        decreases rem@.len(),
    {
        let ghost j = cs@.len() as int;
        let e = rem.remove(0);
        proof {
            assert(e == orig[j]);
            assert(rem@ =~= orig.subrange(j + 1, orig.len() as int));
        }
        if let Some(d) = find_coil_index(&cs, e.0.as_str()) {
            proof {
                let i0 = d as int;
                assert(orig[i0].0@ == orig[j].0@);
                assert(orig[j].0 == e.0);
                assert(exists|a: int, b: int|
                    0 <= a < b < orig.len() && orig[a].0@ == orig[b].0@ && orig[b].0 == e.0) by {
                    assert(0 <= i0 < j < orig.len() && orig[i0].0@ == orig[j].0@ && orig[j].0
                        == e.0);
                }
                assert(!crate::config::names_unique(orig));
            }
            return Err(ConfigError::DuplicateCoil { name: e.0 });
        }
        if let Some((t1, t2)) = find_repeated_label(&e.1.tags) {
            let label = e.1.tags[t2].clone();
            proof {
                let a = t1 as int;
                let b = t2 as int;
                assert(orig[j].1.tags@[a]@ == orig[j].1.tags@[b]@);
                assert(orig[j].1.tags@[b]@ == label@);
                assert(orig[j].0 == e.0);
                assert(!crate::config::coil_tags_unique(orig[j].1));
                assert(exists|j1: int, j2: int|
                    0 <= j1 < j2 < orig[j].1.tags@.len() && orig[j].1.tags@[j1]@
                        == orig[j].1.tags@[j2]@ && orig[j].1.tags@[j2]@ == label@) by {
                    assert(0 <= a < b < orig[j].1.tags@.len() && orig[j].1.tags@[a]@
                        == orig[j].1.tags@[b]@ && orig[j].1.tags@[b]@ == label@);
                }
            }
            return Err(ConfigError::DuplicateTag { coil: e.0, tag: label });
        }
        let d = match find_device_index(devices, e.1.device.as_str()) {
            Some(d) => d,
            None => {
                proof {
                    assert(!has_device_state(devices@, orig[j].1.device@));
                    assert(orig[j].0 == e.0);
                    assert(orig[j].1.device == e.1.device);
                }
                return Err(ConfigError::UnknownDevice { coil: e.0, device: e.1.device });
            },
        };
        let addr = devices[d].config.modbus_address;
        cs.push(
            CoilState {
                name: e.0,
                config: e.1,
                device_index: d,
                device_address: addr,
                status: CoilValue::Unknown,
            },
        );
        proof {
            assert forall|k: int, l: int| 0 <= k < l < cs@.len() implies orig[k].0@
                != orig[l].0@ by {
                if l < j {
                } else {
                    assert(l == j);
                    assert(cs@[k].name == orig[k].0);
                }
            }
        }
    }
    proof {
        assert(cs@.len() == orig.len());
    }
    Ok(cs)
}

/// The label at a position before `j` in this coil's tag list equals `t`.
spec fn label_in_prefix(cc: CoilConfig, j: int, t: Seq<char>) -> bool {
    exists|jj: int| 0 <= jj < j && cc.tags@[jj]@ == t
}

/// Some tag entry carries this label.
spec fn has_entry(tags: Seq<TagEntry>, t: Seq<char>) -> bool {
    exists|k: int| 0 <= k < tags.len() && tags[k].name@ == t
}

/// Exclusive upper bound on the members of entry `k` while the tag-index
/// builder stands at coil `i`, label position `j`: the current coil is a
/// member already exactly when its label prefix holds the entry's label.
spec fn tag_bound(tags: Seq<TagEntry>, coils: Seq<CoilState>, i: int, j: int, k: int) -> int {
    if i < coils.len() && label_in_prefix(coils[i].config, j, tags[k].name@) {
        i + 1
    } else {
        i
    }
}

/// Invariant of the tag-index builder at coil `i`, label position `j`:
/// entry labels are distinct, each group is strictly ascending and bounded,
/// membership is exact for the part of the coil list walked so far, and
/// every label walked so far has an entry.
spec fn tag_inv(tags: Seq<TagEntry>, coils: Seq<CoilState>, i: int, j: int) -> bool {
    &&& forall|k: int, l: int| 0 <= k < l < tags.len() ==> tags[k].name@ != tags[l].name@
    &&& forall|k: int, a: int, b: int|
        0 <= k < tags.len() && 0 <= a < b < tags[k].coils@.len() ==> tags[k].coils@[a]
            < tags[k].coils@[b]
    &&& forall|k: int, a: int|
        0 <= k < tags.len() && 0 <= a < tags[k].coils@.len() ==> (#[trigger] tags[k].coils@[a])
            < tag_bound(tags, coils, i, j, k)
    &&& forall|k: int, c: usize|
        0 <= k < tags.len() && (c as int) < coils.len() ==> ((#[trigger] tags[k].coils@.contains(
            c,
        )) <==> ((c as int) < tag_bound(tags, coils, i, j, k) && coil_has_tag(
            coils[c as int].config,
            tags[k].name@,
        )))
    &&& forall|c: int, jj: int|
        0 <= c < i && 0 <= jj < coils[c].config.tags@.len() ==> has_entry(
            tags,
            #[trigger] coils[c].config.tags@[jj]@,
        )
    &&& (i < coils.len() ==> forall|jj: int|
        0 <= jj < j ==> has_entry(tags, #[trigger] coils[i].config.tags@[jj]@))
}

/// Build the tag index over the coil list: one entry per label that any
/// coil carries, whose group lists the carrying coils in ascending order.
#[verifier::loop_isolation(false)]
fn build_tags(coils: &Vec<CoilState>) -> (tags: Vec<TagEntry>)
    requires
        forall|c: int|
            0 <= c < coils@.len() ==> crate::config::coil_tags_unique(
                (#[trigger] coils@[c]).config,
            ),
    ensures
        tag_inv(tags@, coils@, coils@.len() as int, 0),
{
    broadcast use vstd::seq_lib::lemma_seq_contains_after_push;

    let n = coils.len();
    let mut tags: Vec<TagEntry> = Vec::new();
    let mut i: usize = 0;
    while i < n
        invariant
            i <= n,
            tag_inv(tags@, coils@, i as int, 0),
        decreases n - i,
    {
        let ghost ii = i as int;
        let ghost cc = coils@[ii].config;
        let m = coils[i].config.tags.len();
        let mut j: usize = 0;
        while j < m
            invariant
                j <= m,
                tag_inv(tags@, coils@, i as int, j as int),
            decreases m - j,
        {
            let ghost tags0 = tags@;
            let ghost jj0 = j as int;
            let label = &coils[i].config.tags[j];
            proof {
                assert(cc.tags@[jj0]@ == label@);
                // This coil's labels are distinct, so the current label is
                // not among those already walked.
                assert(!label_in_prefix(cc, jj0, label@)) by {
                    assert forall|a: int| 0 <= a < jj0 implies cc.tags@[a]@ != label@ by {
                        assert(cc.tags@[a]@ != cc.tags@[jj0]@);
                    }
                }
                assert(label_in_prefix(cc, jj0 + 1, label@)) by {
                    assert(0 <= jj0 < jj0 + 1 && cc.tags@[jj0]@ == label@);
                }
                // Any other label's prefix status is unchanged by walking on.
                assert forall|t: Seq<char>| t != label@ implies (label_in_prefix(cc, jj0 + 1, t)
                    <==> label_in_prefix(cc, jj0, t)) by {
                    if label_in_prefix(cc, jj0 + 1, t) {
                        let a = choose|a: int| 0 <= a < jj0 + 1 && cc.tags@[a]@ == t;
                        if a == jj0 {
                            assert(cc.tags@[jj0]@ == t);
                            assert(false);
                        }
                        assert(label_in_prefix(cc, jj0, t)) by {
                            assert(0 <= a < jj0 && cc.tags@[a]@ == t);
                        }
                    }
                    if label_in_prefix(cc, jj0, t) {
                        let a = choose|a: int| 0 <= a < jj0 && cc.tags@[a]@ == t;
                        assert(0 <= a < jj0 + 1 && cc.tags@[a]@ == t);
                    }
                }
            }
            match find_tag_index(&tags, label.as_str()) {
                Some(k) => {
                    let ghost ki = k as int;
                    tags[k].coils.push(i);
                    proof {
                        assert(tags@[ki].coils@ == tags0[ki].coils@.push(i));
                        assert(tags@[ki].name == tags0[ki].name);
                        assert(forall|l: int|
                            0 <= l < tags0.len() && l != ki ==> tags@[l] == tags0[l]);
                        assert(tags0[ki].name@ == label@);
                        // Entries other than `ki` keep their bound.
                        assert forall|l: int| 0 <= l < tags@.len() && l != ki implies tag_bound(
                            tags@,
                            coils@,
                            ii,
                            jj0 + 1,
                            l,
                        ) == tag_bound(tags0, coils@, ii, jj0, l) by {
                            assert(tags@[l].name@ == tags0[l].name@);
                            assert(tags0[l].name@ != label@) by {
                                if l < ki {
                                    assert(tags0[l].name@ != tags0[ki].name@);
                                } else {
                                    assert(tags0[ki].name@ != tags0[l].name@);
                                }
                            }
                        }
                        assert(tag_bound(tags@, coils@, ii, jj0 + 1, ki) == ii + 1);
                        assert(tag_bound(tags0, coils@, ii, jj0, ki) == ii);
                        assert(coil_has_tag(cc, label@)) by {
                            assert(0 <= jj0 < cc.tags@.len() && cc.tags@[jj0]@ == label@);
                        }
                        // Membership for the updated entry.
                        assert forall|c: usize| (c as int) < coils@.len() implies (
                        tags@[ki].coils@.contains(c) <==> ((c as int) < tag_bound(
                            tags@,
                            coils@,
                            ii,
                            jj0 + 1,
                            ki,
                        ) && coil_has_tag(coils@[c as int].config, tags@[ki].name@))) by {
                            assert(tags0[ki].coils@.contains(c) <==> ((c as int) < ii
                                && coil_has_tag(coils@[c as int].config, tags0[ki].name@)));
                            assert(tags@[ki].coils@.contains(c) <==> (c == i
                                || tags0[ki].coils@.contains(c)));
                        }
                        assert(tag_inv(tags@, coils@, ii, jj0 + 1)) by {
                            assert forall|l: int, c: usize|
                                0 <= l < tags@.len() && (c as int) < coils@.len() implies ((
                            #[trigger] tags@[l].coils@.contains(c)) <==> ((c as int) < tag_bound(
                                tags@,
                                coils@,
                                ii,
                                jj0 + 1,
                                l,
                            ) && coil_has_tag(coils@[c as int].config, tags@[l].name@))) by {
                                if l != ki {
                                    assert(tags@[l] == tags0[l]);
                                    assert(tags0[l].coils@.contains(c) <==> ((c as int)
                                        < tag_bound(tags0, coils@, ii, jj0, l) && coil_has_tag(
                                        coils@[c as int].config,
                                        tags0[l].name@,
                                    )));
                                }
                            }
                            assert forall|l: int, a: int|
                                0 <= l < tags@.len() && 0 <= a < tags@[l].coils@.len() implies (
                            #[trigger] tags@[l].coils@[a]) < tag_bound(
                                tags@,
                                coils@,
                                ii,
                                jj0 + 1,
                                l,
                            ) by {
                                if l == ki {
                                    if a < tags0[ki].coils@.len() {
                                        assert(tags@[l].coils@[a] == tags0[ki].coils@[a]);
                                        assert(tags0[ki].coils@[a] < ii);
                                    } else {
                                        assert(tags@[l].coils@[a] == i);
                                    }
                                } else {
                                    assert(tags@[l] == tags0[l]);
                                    assert(tags@[l].coils@[a] < tag_bound(
                                        tags0,
                                        coils@,
                                        ii,
                                        jj0,
                                        l,
                                    ));
                                }
                            }
                            assert forall|l: int, a: int, b: int|
                                0 <= l < tags@.len() && 0 <= a < b < tags@[l].coils@.len() implies
                                tags@[l].coils@[a] < tags@[l].coils@[b] by {
                                if l == ki {
                                    assert(tags0[ki].coils@.len() + 1 == tags@[ki].coils@.len());
                                    if b < tags0[ki].coils@.len() {
                                        assert(tags0[ki].coils@[a] < tags0[ki].coils@[b]);
                                    } else {
                                        assert(tags@[l].coils@[b] == i);
                                        assert(tags@[l].coils@[a] == tags0[ki].coils@[a]);
                                        assert(tags0[ki].coils@[a] < ii);
                                    }
                                } else {
                                    assert(tags@[l] == tags0[l]);
                                }
                            }
                            assert forall|c: int, jj: int|
                                0 <= c < ii && 0 <= jj < coils@[c].config.tags@.len() implies
                                has_entry(tags@, #[trigger] coils@[c].config.tags@[jj]@) by {
                                assert(has_entry(tags0, coils@[c].config.tags@[jj]@));
                                let w = choose|w: int|
                                    0 <= w < tags0.len() && tags0[w].name@ == coils@[c].config.tags@[jj]@;
                                assert(tags@[w].name@ == coils@[c].config.tags@[jj]@);
                            }
                            assert forall|jj: int| 0 <= jj < jj0 + 1 implies has_entry(
                                tags@,
                                #[trigger] coils@[ii].config.tags@[jj]@,
                            ) by {
                                if jj < jj0 {
                                    assert(has_entry(tags0, coils@[ii].config.tags@[jj]@));
                                    let w = choose|w: int|
                                        0 <= w < tags0.len() && tags0[w].name@ == coils@[ii].config.tags@[jj]@;
                                    assert(tags@[w].name@ == coils@[ii].config.tags@[jj]@);
                                } else {
                                    assert(tags@[ki].name@ == label@);
                                }
                            }
                        }
                    }
                },
                None => {
                    let mut g: Vec<usize> = Vec::new();
                    g.push(i);
                    tags.push(TagEntry { name: label.clone(), coils: g });
                    proof {
                        assert(tags@ == tags0.push(tags@[tags0.len() as int]));
                        let ki = tags0.len() as int;
                        assert(tags@[ki].name@ == label@);
                        assert(tags@[ki].coils@ == Seq::<usize>::empty().push(i));
                        assert(forall|l: int| 0 <= l < ki ==> tags@[l] == tags0[l]);
                        assert(forall|l: int| 0 <= l < ki ==> tags0[l].name@ != label@);
                        // No earlier coil carries this label, else it would
                        // already have an entry.
                        assert forall|c: int| 0 <= c < ii implies !coil_has_tag(
                            coils@[c].config,
                            label@,
                        ) by {
                            if coil_has_tag(coils@[c].config, label@) {
                                let w = choose|w: int|
                                    0 <= w < coils@[c].config.tags@.len()
                                        && coils@[c].config.tags@[w]@ == label@;
                                assert(has_entry(tags0, coils@[c].config.tags@[w]@));
                                let k2 = choose|k2: int|
                                    0 <= k2 < tags0.len() && tags0[k2].name@ == coils@[c].config.tags@[w]@;
                                assert(tags0[k2].name@ == label@);
                                assert(false);
                            }
                        }
                        assert forall|l: int| 0 <= l < ki implies tag_bound(
                            tags@,
                            coils@,
                            ii,
                            jj0 + 1,
                            l,
                        ) == tag_bound(tags0, coils@, ii, jj0, l) by {
                            assert(tags@[l].name@ == tags0[l].name@);
                            assert(tags0[l].name@ != label@);
                        }
                        assert(tag_bound(tags@, coils@, ii, jj0 + 1, ki) == ii + 1);
                        assert(coil_has_tag(cc, label@)) by {
                            assert(0 <= jj0 < cc.tags@.len() && cc.tags@[jj0]@ == label@);
                        }
                        assert(tag_inv(tags@, coils@, ii, jj0 + 1)) by {
                            assert forall|l: int, c: usize|
                                0 <= l < tags@.len() && (c as int) < coils@.len() implies ((
                            #[trigger] tags@[l].coils@.contains(c)) <==> ((c as int) < tag_bound(
                                tags@,
                                coils@,
                                ii,
                                jj0 + 1,
                                l,
                            ) && coil_has_tag(coils@[c as int].config, tags@[l].name@))) by {
                                if l == ki {
                                    assert(tags@[ki].coils@.contains(c) <==> (c == i
                                        || Seq::<usize>::empty().contains(c)));
                                    assert(!Seq::<usize>::empty().contains(c));
                                    if (c as int) < ii {
                                        assert(!coil_has_tag(coils@[c as int].config, label@));
                                    }
                                } else {
                                    assert(tags@[l] == tags0[l]);
                                    assert(tags0[l].coils@.contains(c) <==> ((c as int)
                                        < tag_bound(tags0, coils@, ii, jj0, l) && coil_has_tag(
                                        coils@[c as int].config,
                                        tags0[l].name@,
                                    )));
                                }
                            }
                            assert forall|l: int, a: int|
                                0 <= l < tags@.len() && 0 <= a < tags@[l].coils@.len() implies (
                            #[trigger] tags@[l].coils@[a]) < tag_bound(
                                tags@,
                                coils@,
                                ii,
                                jj0 + 1,
                                l,
                            ) by {
                                if l == ki {
                                    assert(tags@[l].coils@[a] == i);
                                } else {
                                    assert(tags@[l] == tags0[l]);
                                    assert(tags@[l].coils@[a] < tag_bound(
                                        tags0,
                                        coils@,
                                        ii,
                                        jj0,
                                        l,
                                    ));
                                }
                            }
                            assert forall|c: int, jj: int|
                                0 <= c < ii && 0 <= jj < coils@[c].config.tags@.len() implies
                                has_entry(tags@, #[trigger] coils@[c].config.tags@[jj]@) by {
                                assert(has_entry(tags0, coils@[c].config.tags@[jj]@));
                                let w = choose|w: int|
                                    0 <= w < tags0.len() && tags0[w].name@ == coils@[c].config.tags@[jj]@;
                                assert(tags@[w].name@ == coils@[c].config.tags@[jj]@);
                            }
                            assert forall|jj: int| 0 <= jj < jj0 + 1 implies has_entry(
                                tags@,
                                #[trigger] coils@[ii].config.tags@[jj]@,
                            ) by {
                                if jj < jj0 {
                                    assert(has_entry(tags0, coils@[ii].config.tags@[jj]@));
                                    let w = choose|w: int|
                                        0 <= w < tags0.len() && tags0[w].name@ == coils@[ii].config.tags@[jj]@;
                                    assert(tags@[w].name@ == coils@[ii].config.tags@[jj]@);
                                } else {
                                    assert(tags@[ki].name@ == label@);
                                }
                            }
                        }
                    }
                },
            }
            j += 1;
        }
        proof {
            // Walking past the end of this coil's labels: its membership in
            // every group is now settled.
            assert(tag_inv(tags@, coils@, ii + 1, 0)) by {
                assert forall|k: int| 0 <= k < tags@.len() implies (label_in_prefix(
                    cc,
                    m as int,
                    tags@[k].name@,
                ) <==> coil_has_tag(cc, tags@[k].name@)) by {
                    assert(m == cc.tags@.len());
                }
                assert forall|k: int, a: int|
                    0 <= k < tags@.len() && 0 <= a < tags@[k].coils@.len() implies (
                #[trigger] tags@[k].coils@[a]) < tag_bound(tags@, coils@, ii + 1, 0, k) by {
                    assert(tags@[k].coils@[a] < tag_bound(tags@, coils@, ii, m as int, k));
                }
                assert forall|k: int, c: usize|
                    0 <= k < tags@.len() && (c as int) < coils@.len() implies ((
                #[trigger] tags@[k].coils@.contains(c)) <==> ((c as int) < tag_bound(
                    tags@,
                    coils@,
                    ii + 1,
                    0,
                    k,
                ) && coil_has_tag(coils@[c as int].config, tags@[k].name@))) by {
                    assert(tags@[k].coils@.contains(c) <==> ((c as int) < tag_bound(
                        tags@,
                        coils@,
                        ii,
                        m as int,
                        k,
                    ) && coil_has_tag(coils@[c as int].config, tags@[k].name@)));
                }
                assert forall|c: int, jj: int|
                    0 <= c < ii + 1 && 0 <= jj < coils@[c].config.tags@.len() implies has_entry(
                    tags@,
                    #[trigger] coils@[c].config.tags@[jj]@,
                ) by {
                    if c < ii {
                    } else {
                        assert(c == ii);
                        assert(has_entry(tags@, coils@[ii].config.tags@[jj]@));
                    }
                }
            }
        }
        i += 1;
    }
    tags
}

/// Two positions of the same label in one coil's tag list, if any.
fn find_repeated_label(labels: &Vec<String>) -> (r: Option<(usize, usize)>)
    ensures
        match r {
            Some((j1, j2)) => j1 < j2 < labels@.len() && labels@[j1 as int]@ == labels@[j2 as int]@,
            None => forall|j1: int, j2: int|
                0 <= j1 < j2 < labels@.len() ==> labels@[j1]@ != labels@[j2]@,
        },
{
    let n = labels.len();
    let mut j2: usize = 0;
    while j2 < n
        invariant
            n == labels@.len(),
            j2 <= n,
            forall|a: int, b: int| 0 <= a < b < j2 ==> labels@[a]@ != labels@[b]@,
        decreases n - j2,
    {
        let mut j1: usize = 0;
        while j1 < j2
            invariant
                n == labels@.len(),
                j1 <= j2 < n,
                forall|a: int, b: int| 0 <= a < b < j2 ==> labels@[a]@ != labels@[b]@,
                forall|a: int| 0 <= a < j1 ==> labels@[a]@ != labels@[j2 as int]@,
            decreases j2 - j1,
        {
            if str_eq(labels[j1].as_str(), labels[j2].as_str()) {
                return Some((j1, j2));
            }
            j1 += 1;
        }
        j2 += 1;
    }
    None
}

/// A change that only touches tracked values — coil statuses, device
/// versions and seen flags — keeps the store well-formed: well-formedness
/// speaks only of names, addresses and the tag index.
proof fn lemma_wf_after_tracked_change(pre: BusState, post: BusState)
    requires
        pre.wf(),
        post.devices@.len() == pre.devices@.len(),
        forall|i: int|
            0 <= i < pre.devices@.len() ==> (#[trigger] post.devices@[i]).name
                == pre.devices@[i].name && post.devices@[i].config == pre.devices@[i].config,
        post.tags == pre.tags,
        post.coils@.len() == pre.coils@.len(),
        forall|i: int|
            0 <= i < pre.coils@.len() ==> (#[trigger] post.coils@[i]).same_entry(pre.coils@[i]),
    ensures
        post.wf(),
{
    assert forall|i: int| 0 <= i < post.coils@.len() implies post.coil_entry_wf(i) by {
        assert(pre.coil_entry_wf(i));
        assert(post.coils@[i].same_entry(pre.coils@[i]));
    }
    assert forall|k: int| 0 <= k < post.tags@.len() implies post.tag_entry_wf(k) by {
        assert(pre.tag_entry_wf(k));
        assert(post.tags@[k] == pre.tags@[k]);
        assert forall|j: int|
            0 <= j < post.tags@[k].coils@.len() implies post.tags@[k].coils@[j]
            < post.coils@.len() && coil_has_tag(
            #[trigger] post.coils@[post.tags@[k].coils@[j] as int].config,
            post.tags@[k].name@,
        ) by {
            assert(coil_has_tag(
                pre.coils@[pre.tags@[k].coils@[j] as int].config,
                pre.tags@[k].name@,
            ));
            let ci = pre.tags@[k].coils@[j] as int;
            assert(post.coils@[ci].same_entry(pre.coils@[ci]));
        }
    }
    assert forall|k: int, i: int|
        0 <= k < post.tags@.len() && 0 <= i < post.coils@.len() && coil_has_tag(
            #[trigger] post.coils@[i].config,
            #[trigger] post.tags@[k].name@,
        ) implies post.tags@[k].coils@.contains(i as usize) by {
        assert(post.coils@[i].same_entry(pre.coils@[i]));
        assert(coil_has_tag(pre.coils@[i].config, pre.tags@[k].name@));
    }
    assert forall|i: int, j: int|
        0 <= i < post.coils@.len() && 0 <= j < post.coils@[i].config.tags@.len() implies
        post.spec_has_tag(#[trigger] post.coils@[i].config.tags@[j]@) by {
        assert(post.coils@[i].same_entry(pre.coils@[i]));
        assert(pre.spec_has_tag(pre.coils@[i].config.tags@[j]@));
        let w = choose|w: int|
            0 <= w < pre.tags@.len() && pre.tags@[w].name@ == pre.coils@[i].config.tags@[j]@;
        assert(post.tags@[w].name@ == post.coils@[i].config.tags@[j]@);
    }
}

/// Index of the first device entry of this name, if any.
fn find_device_index(devices: &Vec<DeviceState>, name: &str) -> (r: Option<usize>)
    ensures
        match r {
            Some(i) => i < devices@.len() && devices@[i as int].name@ == name@,
            None => forall|k: int| 0 <= k < devices@.len() ==> devices@[k].name@ != name@,
        },
{
    let n = devices.len();
    let mut i: usize = 0;
    while i < n
        invariant
            n == devices@.len(),
            i <= n,
            forall|k: int| 0 <= k < i ==> devices@[k].name@ != name@,
    decreases n - i,
    {
        if str_eq(devices[i].name.as_str(), name) {
            return Some(i);
        }
        i += 1;
    }
    None
}

/// Index of the first coil entry of this name, if any.
fn find_coil_index(coils: &Vec<CoilState>, name: &str) -> (r: Option<usize>)
    ensures
        match r {
            Some(i) => i < coils@.len() && coils@[i as int].name@ == name@,
            None => forall|k: int| 0 <= k < coils@.len() ==> coils@[k].name@ != name@,
        },
{
    let n = coils.len();
    let mut i: usize = 0;
    while i < n
        invariant
            n == coils@.len(),
            i <= n,
            forall|k: int| 0 <= k < i ==> coils@[k].name@ != name@,
    decreases n - i,
    {
        if str_eq(coils[i].name.as_str(), name) {
            return Some(i);
        }
        i += 1;
    }
    None
}

/// Index of the first tag entry of this label, if any.
fn find_tag_index(tags: &Vec<TagEntry>, name: &str) -> (r: Option<usize>)
    ensures
        match r {
            Some(k) => k < tags@.len() && tags@[k as int].name@ == name@,
            None => forall|l: int| 0 <= l < tags@.len() ==> tags@[l].name@ != name@,
        },
{
    let n = tags.len();
    let mut k: usize = 0;
    while k < n
        invariant
            n == tags@.len(),
            k <= n,
            forall|l: int| 0 <= l < k ==> tags@[l].name@ != name@,
    decreases n - k,
    {
        if str_eq(tags[k].name.as_str(), name) {
            return Some(k);
        }
        k += 1;
    }
    None
}

/// Clone a borrowed name into an owned `String`.
fn string_clone_str(s: &str) -> (r: String)
    ensures
        r@ == s@,
{
    s.to_owned()
}

} // verus!
