//! The catalog of audio devices: what each device is called, which way audio
//! flows through it, and how a stored name is found again among the devices
//! of a later enumeration.

use crate::format::{FormatRange, StreamFormat};
use vstd::prelude::*;

verus! {

/// The name shown where no device is selected.
pub const NO_DEVICE_SELECTED: &'static str = "No Device Selected";

/// The name shown for a device that does not report its name.
pub const UNKNOWN_DEVICE: &'static str = "Unknown Device";

/// Which way audio flows through a device.
#[derive(Clone, Copy, Debug, PartialEq, Eq, Structural)]
pub enum Direction {
    Input,
    Output,
    Both,
}

/// What the pipeline knows of one audio device: its name, where the platform
/// reports one, and the formats it captures and plays.
#[derive(Debug)]
pub struct DeviceInfo {
    pub name: Option<String>,
    pub inputs: Vec<FormatRange>,
    pub outputs: Vec<FormatRange>,
}

/// The mathematical content of a `DeviceInfo`.
pub struct DeviceInfoView {
    pub name: Option<Seq<char>>,
    pub inputs: Seq<FormatRange>,
    pub outputs: Seq<FormatRange>,
}

impl View for DeviceInfo {
    type V = DeviceInfoView;

    open spec fn view(&self) -> DeviceInfoView {
        DeviceInfoView {
            name: match self.name {
                Some(n) => Some(n@),
                None => None,
            },
            inputs: self.inputs@,
            outputs: self.outputs@,
        }
    }
}

impl DeviceInfoView {
    /// The direction of the device; none where it neither captures nor plays.
    pub open spec fn direction(self) -> Option<Direction> {
        if self.inputs.len() > 0 && self.outputs.len() > 0 {
            Some(Direction::Both)
        } else if self.inputs.len() > 0 {
            Some(Direction::Input)
        } else if self.outputs.len() > 0 {
            Some(Direction::Output)
        } else {
            None
        }
    }

    /// The name under which the device is shown.
    pub open spec fn display_name(self) -> Seq<char> {
        match self.name {
            Some(n) => n,
            None => UNKNOWN_DEVICE@,
        }
    }

    /// Whether the device captures in the format `f`.
    pub open spec fn captures(self, f: StreamFormat) -> bool {
        exists|i: int| 0 <= i < self.inputs.len() && (#[trigger] self.inputs[i]).supports(f)
    }

    /// Whether the device plays the format `f`.
    pub open spec fn plays(self, f: StreamFormat) -> bool {
        exists|i: int| 0 <= i < self.outputs.len() && (#[trigger] self.outputs[i]).supports(f)
    }
}

/// One line of the device list: the shown name and the direction.
#[derive(Debug, PartialEq, Eq)]
pub struct DeviceEntry {
    pub name: String,
    pub direction: Direction,
}

/// The mathematical content of a `DeviceEntry`.
pub struct DeviceEntryView {
    pub name: Seq<char>,
    pub direction: Direction,
}

impl View for DeviceEntry {
    type V = DeviceEntryView;

    open spec fn view(&self) -> DeviceEntryView {
        DeviceEntryView { name: self.name@, direction: self.direction }
    }
}

impl DeviceInfo {
    /// The direction of the device; none where it neither captures nor plays.
    pub fn direction(&self) -> (d: Option<Direction>)
        ensures
            d == self@.direction(),
    {
        let captures = self.inputs.len() > 0;
        let plays = self.outputs.len() > 0;
        if captures && plays {
            Some(Direction::Both)
        } else if captures {
            Some(Direction::Input)
        } else if plays {
            Some(Direction::Output)
        } else {
            None
        }
    }

    /// The name under which the device is shown.
    pub fn display_name(&self) -> (s: String)
        ensures
            s@ == self@.display_name(),
    {
        match &self.name {
            Some(n) => n.clone(),
            None => UNKNOWN_DEVICE.to_owned(),
        }
    }
}

/// The name shown for a selection: that of the selected device, or the
/// notice that none is selected.
pub open spec fn selection_name(devices: Seq<DeviceInfo>, idx: Option<usize>) -> Seq<char> {
    match idx {
        Some(i) => devices[i as int]@.display_name(),
        None => NO_DEVICE_SELECTED@,
    }
}

/// The name shown for the selection `idx` among `devices`.
pub fn get_device_name(devices: &[DeviceInfo], idx: Option<usize>) -> (name: String)
    requires
        idx matches Some(i) ==> i < devices@.len(),
    ensures
        name@ == selection_name(devices@, idx),
{
    match idx {
        Some(i) => devices[i].display_name(),
        None => NO_DEVICE_SELECTED.to_owned(),
    }
}

/// Whether `i` is the first place in `devices` at which a device reports the
/// name `name`.
pub open spec fn is_first_named(devices: Seq<DeviceInfo>, name: Seq<char>, i: int) -> bool {
    &&& 0 <= i < devices.len()
    &&& devices[i]@.name == Some(name)
    &&& forall|j: int| 0 <= j < i ==> (#[trigger] devices[j])@.name != Some(name)
}

/// Whether no device in `devices` reports the name `name`.
pub open spec fn none_named(devices: Seq<DeviceInfo>, name: Seq<char>) -> bool {
    forall|j: int| 0 <= j < devices.len() ==> (#[trigger] devices[j])@.name != Some(name)
}

/// The place of the first device that reports the name `name`. A device that
/// reports no name is never found, whatever `name` is.
pub fn get_device_idx_by_name(devices: &[DeviceInfo], name: &str) -> (found: Option<usize>)
    ensures
        match found {
            Some(i) => is_first_named(devices@, name@, i as int),
            None => none_named(devices@, name@),
        },
{
    let wanted = name.to_owned();
    let mut i: usize = 0;
    while i < devices.len()
        invariant
            i <= devices@.len(),
            wanted@ == name@,
            forall|j: int| 0 <= j < i ==> (#[trigger] devices@[j])@.name != Some(name@),
        decreases devices@.len() - i,
    {
        let same = match &devices[i].name {
            Some(n) => *n == wanted,
            None => false,
        };
        if same {
            return Some(i);
        }
        i += 1;
    }
    None
}

/// The device list of `devices`: one entry, in order, for each device that
/// captures or plays.
pub open spec fn listing(devices: Seq<DeviceInfo>) -> Seq<DeviceEntryView>
    decreases devices.len(),
{
    if devices.len() == 0 {
        Seq::empty()
    } else {
        let before = listing(devices.drop_last());
        let d = devices.last()@;
        match d.direction() {
            Some(direction) => before.push(
                DeviceEntryView { name: d.display_name(), direction },
            ),
            None => before,
        }
    }
}

/// The views of the entries of a device list.
pub open spec fn entry_views(entries: Seq<DeviceEntry>) -> Seq<DeviceEntryView> {
    Seq::new(entries.len(), |i: int| entries[i]@)
}

/// The device list: each device that captures or plays, under the name it is
/// shown by and with its direction, in the order of `devices`. Where the
/// platform found no device the list is empty.
pub fn list_devices(devices: &[DeviceInfo]) -> (entries: Vec<DeviceEntry>)
    ensures
        entry_views(entries@) == listing(devices@),
{
    let mut entries: Vec<DeviceEntry> = Vec::new();
    let mut i: usize = 0;
    while i < devices.len()
        invariant
            i <= devices@.len(),
            entry_views(entries@) == listing(devices@.take(i as int)),
        decreases devices@.len() - i,
    {
        proof {
            assert(devices@.take(i + 1).drop_last() == devices@.take(i as int));
        }
        match devices[i].direction() {
            Some(direction) => {
                let entry = DeviceEntry { name: devices[i].display_name(), direction };
                entries.push(entry);
            },
            None => {},
        }
        i += 1;
    }
    proof {
        assert(devices@.take(i as int) == devices@);
    }
    entries
}

/// A name that the lookup finds is the name shown for the place it returns:
/// a stored name leads back to the device it was taken from, or to an earlier
/// one of the same name.
pub proof fn lemma_found_name_is_shown(devices: Seq<DeviceInfo>, name: Seq<char>, i: usize)
    requires
        is_first_named(devices, name, i as int),
    ensures
        selection_name(devices, Some(i)) == name,
{
}

/// The name shown for a selected device that reports its name is found again
/// among the same devices, at the selected place or before it.
pub proof fn lemma_shown_name_is_found(devices: Seq<DeviceInfo>, i: usize)
    requires
        i < devices.len(),
        devices[i as int]@.name is Some,
    ensures
        exists|k: int|
            0 <= k <= i && #[trigger] is_first_named(
                devices,
                selection_name(devices, Some(i)),
                k,
            ),
{
    let name = selection_name(devices, Some(i));
    lemma_first_named_exists(devices, name, i as int);
}

/// Where some device up to place `i` reports `name`, one of them is the first.
proof fn lemma_first_named_exists(devices: Seq<DeviceInfo>, name: Seq<char>, i: int)
    requires
        0 <= i < devices.len(),
        devices[i]@.name == Some(name),
    ensures
        exists|k: int| 0 <= k <= i && #[trigger] is_first_named(devices, name, k),
    decreases i,
{
    if exists|j: int| 0 <= j < i && (#[trigger] devices[j])@.name == Some(name) {
        let j = choose|j: int| 0 <= j < i && (#[trigger] devices[j])@.name == Some(name);
        lemma_first_named_exists(devices, name, j);
    } else {
        assert(is_first_named(devices, name, i));
    }
}

} // verus!
