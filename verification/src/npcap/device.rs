//! Npcap capture devices and the list of them a backend keeps.
use vstd::prelude::*;

use crate::npcap::ffi::{PCAP_IF_RUNNING, PCAP_IF_UP};
use crate::text::{is_blank, str_eq, str_is_blank, trim, trim_str};

verus! {

#[derive(Debug, Clone, Copy, PartialEq, Eq, Structural)]
pub enum DeviceState {
    Unknown,
    Available,
    Open,
    Closed,
    Failed,
}

/// A device as Npcap names it. Npcap gives no reliable interface index;
/// one is set only when it is known from elsewhere.
#[derive(Debug, PartialEq, Eq)]
pub struct NpcapDevice {
    pub name: String,
    pub description: Option<String>,
    pub state: DeviceState,
    pub interface_index: Option<u32>,
}

/// The text of an optional string.
pub open spec fn opt_view(s: Option<String>) -> Option<Seq<char>> {
    match s {
        Some(t) => Some(t@),
        None => None,
    }
}

impl Clone for NpcapDevice {
    fn clone(&self) -> (r: Self)
        ensures
            r.name@ == self.name@,
            opt_view(r.description) == opt_view(self.description),
            r.state == self.state,
            r.interface_index == self.interface_index,
    {
        NpcapDevice {
            name: self.name.clone(),
            description: match &self.description {
                Some(d) => Some(d.clone()),
                None => None,
            },
            state: self.state,
            interface_index: self.interface_index,
        }
    }
}

impl NpcapDevice {
    /// A device in `Unknown` state; `None` for a blank name.
    pub fn new(name: &str) -> (r: Option<Self>)
        ensures
            r is Some == !is_blank(name@),
            r matches Some(d) ==> d.name@ == name@ && d.description is None && d.state
                == DeviceState::Unknown && d.interface_index is None,
    {
        if str_is_blank(name) {
            return None;
        }
        Some(
            NpcapDevice {
                name: name.to_owned(),
                description: None,
                state: DeviceState::Unknown,
                interface_index: None,
            },
        )
    }

    /// Sets the description; a blank one clears it.
    pub fn set_description(&mut self, description: &str)
        ensures
            final(self).name == old(self).name,
            final(self).state == old(self).state,
            final(self).interface_index == old(self).interface_index,
            opt_view(final(self).description) == (if is_blank(description@) {
                None
            } else {
                Some(description@)
            }),
    {
        if str_is_blank(description) {
            self.description = None;
        } else {
            self.description = Some(description.to_owned());
        }
    }

    /// Sets the interface index; 0 means unknown.
    pub fn set_interface_index(&mut self, index: u32)
        ensures
            final(self).name == old(self).name,
            final(self).state == old(self).state,
            final(self).description == old(self).description,
            final(self).interface_index == (if index == 0 {
                None
            } else {
                Some(index)
            }),
    {
        self.interface_index = if index == 0 {
            None
        } else {
            Some(index)
        };
    }

    pub fn is_available(&self) -> (r: bool)
        ensures
            r == (self.state == DeviceState::Available),
    {
        self.state == DeviceState::Available
    }

    pub fn is_open(&self) -> (r: bool)
        ensures
            r == (self.state == DeviceState::Open),
    {
        self.state == DeviceState::Open
    }

    pub fn mark_available(&mut self)
        ensures
            *final(self) == (NpcapDevice { state: DeviceState::Available, ..*old(self) }),
    {
        self.state = DeviceState::Available;
    }

    pub fn mark_open(&mut self)
        ensures
            *final(self) == (NpcapDevice { state: DeviceState::Open, ..*old(self) }),
    {
        self.state = DeviceState::Open;
    }

    pub fn mark_closed(&mut self)
        ensures
            *final(self) == (NpcapDevice { state: DeviceState::Closed, ..*old(self) }),
    {
        self.state = DeviceState::Closed;
    }

    pub fn mark_failed(&mut self)
        ensures
            *final(self) == (NpcapDevice { state: DeviceState::Failed, ..*old(self) }),
    {
        self.state = DeviceState::Failed;
    }
}

#[derive(Debug, Clone, Copy, PartialEq, Eq, Structural)]
pub enum DeviceError {
    InvalidDeviceName,
    DeviceNotFound,
    DeviceAlreadyOpen,
    DeviceNotOpen,
    DeviceEnumerationFailed,
    DeviceOpenFailed,
}

/// Some listed device is named `name`.
pub open spec fn has_device(ds: Seq<NpcapDevice>, name: Seq<char>) -> bool {
    exists|i: int| 0 <= i < ds.len() && (#[trigger] ds[i]).name@ == name
}

/// The first listed device named `name`.
pub open spec fn device_index(ds: Seq<NpcapDevice>, name: Seq<char>) -> int {
    choose|i: int|
        0 <= i < ds.len() && (#[trigger] ds[i]).name@ == name && forall|j: int|
            0 <= j < i ==> (#[trigger] ds[j]).name@ != name
}

/// The devices after each of `f` was added to `s` in turn, a device whose
/// name is already listed being passed over.
pub open spec fn add_all(s: Seq<NpcapDevice>, f: Seq<NpcapDevice>) -> Seq<NpcapDevice>
    decreases f.len(),
{
    if f.len() == 0 {
        s
    } else {
        let before = add_all(s, f.drop_last());
        if has_device(before, f.last().name@) {
            before
        } else {
            before.push(f.last())
        }
    }
}

/// `p` is the first device of `f` with a blank name.
pub open spec fn first_blank(f: Seq<NpcapDevice>, p: int) -> bool {
    &&& 0 <= p < f.len()
    &&& is_blank(f[p].name@)
    &&& forall|j: int| 0 <= j < p ==> !is_blank(#[trigger] f[j].name@)
}

/// The devices known to the backend, in the order they were added.
#[derive(Debug, Default)]
pub struct DeviceManager {
    devices: Vec<NpcapDevice>,
}

impl DeviceManager {
    pub closed spec fn devices_view(self) -> Seq<NpcapDevice> {
        self.devices@
    }

    pub fn new() -> (r: Self)
        ensures
            r.devices_view().len() == 0,
    {
        DeviceManager { devices: Vec::new() }
    }

    /// The first device named `name`.
    fn position(&self, name: &str) -> (r: Option<usize>)
        ensures
            r is Some == has_device(self.devices_view(), name@),
            r matches Some(i) ==> i < self.devices_view().len() && i == device_index(
                self.devices_view(),
                name@,
            ) && self.devices_view()[i as int].name@ == name@,
    {
        let mut i: usize = 0;
        while i < self.devices.len()
            invariant
                i <= self.devices@.len(),
                forall|j: int| 0 <= j < i ==> (#[trigger] self.devices@[j]).name@ != name@,
            decreases self.devices@.len() - i,
        {
            if str_eq(self.devices[i].name.as_str(), name) {
                proof {
                    let ds = self.devices@;
                    let k = device_index(ds, name@);
                    assert(0 <= i < ds.len() && ds[i as int].name@ == name@ && forall|j: int|
                        0 <= j < i ==> (#[trigger] ds[j]).name@ != name@);
                    if k < i {
                        assert(ds[k].name@ != name@);
                    } else if k > i {
                        assert(ds[i as int].name@ != name@);
                    }
                }
                return Some(i);
            }
            i = i + 1;
        }
        None
    }

    /// Adds a device unless one of that name is already known; a blank
    /// name is refused.
    pub fn add(&mut self, device: NpcapDevice) -> (r: Result<(), DeviceError>)
        ensures
            is_blank(device.name@) ==> r == Err::<(), DeviceError>(DeviceError::InvalidDeviceName)
                && final(self).devices_view() == old(self).devices_view(),
            !is_blank(device.name@) ==> r is Ok,
            !is_blank(device.name@) && has_device(old(self).devices_view(), device.name@) ==> final(self).devices_view() == old(self).devices_view(),
            !is_blank(device.name@) && !has_device(old(self).devices_view(), device.name@) ==> final(self).devices_view() == old(self).devices_view().push(device),
    {
        if str_is_blank(device.name.as_str()) {
            return Err(DeviceError::InvalidDeviceName);
        }
        if self.position(device.name.as_str()).is_some() {
            return Ok(());
        }
        self.devices.push(device);
        Ok(())
    }

    /// The first device named `name`.
    pub fn get(&self, name: &str) -> (r: Result<&NpcapDevice, DeviceError>)
        ensures
            is_blank(name@) ==> r == Err::<&NpcapDevice, DeviceError>(DeviceError::InvalidDeviceName),
            !is_blank(name@) && !has_device(self.devices_view(), name@) ==> r == Err::<
                &NpcapDevice,
                DeviceError,
            >(DeviceError::DeviceNotFound),
            r is Ok == (!is_blank(name@) && has_device(self.devices_view(), name@)),
            r matches Ok(d) ==> *d == self.devices_view()[device_index(self.devices_view(), name@)],
    {
        if str_is_blank(name) {
            return Err(DeviceError::InvalidDeviceName);
        }
        match self.position(name) {
            Some(i) => Ok(&self.devices[i]),
            None => Err(DeviceError::DeviceNotFound),
        }
    }

    /// The first device named `name`, for changing it.
    pub fn get_mut(&mut self, name: &str) -> (r: Result<&mut NpcapDevice, DeviceError>)
        ensures
            is_blank(name@) ==> r is Err && r->Err_0 == DeviceError::InvalidDeviceName && final(self).devices_view() == old(self).devices_view(),
            !is_blank(name@) && !has_device(old(self).devices_view(), name@) ==> r is Err
                && r->Err_0 == DeviceError::DeviceNotFound && final(self).devices_view() == old(self).devices_view(),
            r is Ok == (!is_blank(name@) && has_device(old(self).devices_view(), name@)),
            r is Ok ==> *r->Ok_0 == old(self).devices_view()[device_index(
                old(self).devices_view(),
                name@,
            )] && final(self).devices_view() == old(self).devices_view().update(
                device_index(old(self).devices_view(), name@),
                *final(r->Ok_0),
            ),
    {
        if str_is_blank(name) {
            return Err(DeviceError::InvalidDeviceName);
        }
        match self.position(name) {
            Some(i) => Ok(&mut self.devices[i]),
            None => Err(DeviceError::DeviceNotFound),
        }
    }

    /// Opens the first device named `name`: it must not be open already
    /// nor failed.
    pub fn open(&mut self, name: &str) -> (r: Result<(), DeviceError>)
        ensures
            ({
                let ds = old(self).devices_view();
                let i = device_index(ds, name@);
                &&& is_blank(name@) ==> r == Err::<(), DeviceError>(DeviceError::InvalidDeviceName)
                &&& !is_blank(name@) && !has_device(ds, name@) ==> r == Err::<(), DeviceError>(
                    DeviceError::DeviceNotFound,
                )
                &&& !is_blank(name@) && has_device(ds, name@) && ds[i].state == DeviceState::Open
                    ==> r == Err::<(), DeviceError>(DeviceError::DeviceAlreadyOpen)
                &&& !is_blank(name@) && has_device(ds, name@) && ds[i].state == DeviceState::Failed
                    ==> r == Err::<(), DeviceError>(DeviceError::DeviceOpenFailed)
                &&& r is Ok == (!is_blank(name@) && has_device(ds, name@) && ds[i].state
                    != DeviceState::Open && ds[i].state != DeviceState::Failed)
                &&& r is Ok ==> final(self).devices_view() == ds.update(
                    i,
                    NpcapDevice { state: DeviceState::Open, ..ds[i] },
                )
                &&& r is Err ==> final(self).devices_view() == ds
            }),
    {
        if str_is_blank(name) {
            return Err(DeviceError::InvalidDeviceName);
        }
        let i = match self.position(name) {
            Some(i) => i,
            None => {
                return Err(DeviceError::DeviceNotFound);
            },
        };
        if self.devices[i].is_open() {
            return Err(DeviceError::DeviceAlreadyOpen);
        }
        if self.devices[i].state == DeviceState::Failed {
            return Err(DeviceError::DeviceOpenFailed);
        }
        self.devices[i].mark_open();
        Ok(())
    }

    /// Closes the first device named `name`, which must be open.
    pub fn close(&mut self, name: &str) -> (r: Result<(), DeviceError>)
        ensures
            ({
                let ds = old(self).devices_view();
                let i = device_index(ds, name@);
                &&& is_blank(name@) ==> r == Err::<(), DeviceError>(DeviceError::InvalidDeviceName)
                &&& !is_blank(name@) && !has_device(ds, name@) ==> r == Err::<(), DeviceError>(
                    DeviceError::DeviceNotFound,
                )
                &&& !is_blank(name@) && has_device(ds, name@) && ds[i].state != DeviceState::Open
                    ==> r == Err::<(), DeviceError>(DeviceError::DeviceNotOpen)
                &&& r is Ok == (!is_blank(name@) && has_device(ds, name@) && ds[i].state
                    == DeviceState::Open)
                &&& r is Ok ==> final(self).devices_view() == ds.update(
                    i,
                    NpcapDevice { state: DeviceState::Closed, ..ds[i] },
                )
                &&& r is Err ==> final(self).devices_view() == ds
            }),
    {
        if str_is_blank(name) {
            return Err(DeviceError::InvalidDeviceName);
        }
        let i = match self.position(name) {
            Some(i) => i,
            None => {
                return Err(DeviceError::DeviceNotFound);
            },
        };
        if !self.devices[i].is_open() {
            return Err(DeviceError::DeviceNotOpen);
        }
        self.devices[i].mark_closed();
        Ok(())
    }

    /// Removes and hands back the first device named `name`.
    pub fn remove(&mut self, name: &str) -> (r: Result<NpcapDevice, DeviceError>)
        ensures
            ({
                let ds = old(self).devices_view();
                let i = device_index(ds, name@);
                &&& is_blank(name@) ==> r == Err::<NpcapDevice, DeviceError>(
                    DeviceError::InvalidDeviceName,
                )
                &&& !is_blank(name@) && !has_device(ds, name@) ==> r == Err::<
                    NpcapDevice,
                    DeviceError,
                >(DeviceError::DeviceNotFound)
                &&& r is Ok == (!is_blank(name@) && has_device(ds, name@))
                &&& r matches Ok(d) ==> d == ds[i] && final(self).devices_view() == ds.remove(i)
                &&& r is Err ==> final(self).devices_view() == ds
            }),
    {
        if str_is_blank(name) {
            return Err(DeviceError::InvalidDeviceName);
        }
        let i = match self.position(name) {
            Some(i) => i,
            None => {
                return Err(DeviceError::DeviceNotFound);
            },
        };
        Ok(self.devices.remove(i))
    }

    pub fn all(&self) -> (r: &[NpcapDevice])
        ensures
            r@ == self.devices_view(),
    {
        self.devices.as_slice()
    }

    pub fn clear(&mut self)
        ensures
            final(self).devices_view().len() == 0,
    {
        self.devices = Vec::new();
    }

    pub fn len(&self) -> (r: usize)
        ensures
            r == self.devices_view().len(),
    {
        self.devices.len()
    }

    pub fn is_empty(&self) -> (r: bool)
        ensures
            r == (self.devices_view().len() == 0),
    {
        self.devices.len() == 0
    }

    /// The devices Npcap reports. Without the native driver there are
    /// none, which is an enumeration failure.
    pub fn enumerate() -> (r: Result<Vec<NpcapDevice>, DeviceError>)
        ensures
            r == Err::<Vec<NpcapDevice>, DeviceError>(DeviceError::DeviceEnumerationFailed),
    {
        Err(DeviceError::DeviceEnumerationFailed)
    }

    /// What `pcap_findalldevs` returning `status` (and a list, when
    /// `listed`) means, given the devices read from its entries: a failed
    /// call, no list or no usable device is an enumeration failure.
    pub fn enumeration_outcome(status: i32, listed: bool, devices: Vec<NpcapDevice>) -> (r: Result<
        Vec<NpcapDevice>,
        DeviceError,
    >)
        ensures
            status != 0 || !listed || devices@.len() == 0 ==> r == Err::<Vec<NpcapDevice>, DeviceError>(
                DeviceError::DeviceEnumerationFailed,
            ),
            status == 0 && listed && devices@.len() > 0 ==> (r matches Ok(v) && v@ == devices@),
    {
        if status != 0 || !listed || devices.len() == 0 {
            return Err(DeviceError::DeviceEnumerationFailed);
        }
        Ok(devices)
    }

    /// Replaces the devices with an enumeration's result, added in turn; a
    /// failed enumeration changes nothing, and a device with a blank name
    /// stops the refresh with an error, the ones before it added.
    pub fn refresh_with(&mut self, enumerated: Result<Vec<NpcapDevice>, DeviceError>) -> (r: Result<
        (),
        DeviceError,
    >)
        ensures
            enumerated matches Err(e) ==> r == Err::<(), DeviceError>(e) && final(self).devices_view()
                == old(self).devices_view(),
            enumerated matches Ok(v) ==> ((forall|i: int|
                0 <= i < v@.len() ==> !is_blank(#[trigger] v@[i].name@)) ==> r is Ok
                && final(self).devices_view() == add_all(Seq::empty(), v@)),
            enumerated matches Ok(v) ==> forall|p: int|
                #[trigger] first_blank(v@, p) ==> r == Err::<(), DeviceError>(
                    DeviceError::InvalidDeviceName,
                ) && final(self).devices_view() == add_all(Seq::empty(), v@.take(p)),
            r is Ok ==> enumerated is Ok,
    {
        let devices = match enumerated {
            Ok(devices) => devices,
            Err(e) => {
                return Err(e);
            },
        };
        let ghost f = devices@;
        self.devices = Vec::new();
        let n = devices.len();
        let mut i: usize = 0;
        for d in it: devices.into_iter()
            invariant
                it.seq() == f,
                f.len() == n,
                i == it.index(),
                enumerated matches Ok(v) && v@ == f,
                forall|j: int| 0 <= j < i ==> !is_blank(#[trigger] f[j].name@),
                self.devices_view() == add_all(Seq::empty(), f.take(i as int)),
        {
            proof {
                assert(f.take(i + 1).drop_last() =~= f.take(i as int));
                assert(f.take(i + 1).last() == d);
            }
            match self.add(d) {
                Ok(()) => {},
                Err(e) => {
                    proof {
                        assert(first_blank(f, i as int));
                        assert forall|p: int| first_blank(f, p) implies p == i by {
                            if p < i {
                                assert(!is_blank(f[p].name@));
                            } else if p > i {
                                assert(!is_blank(f[i as int].name@));
                            }
                        }
                    }
                    return Err(e);
                },
            }
            i = i + 1;
        }
        proof {
            assert(f.take(f.len() as int) =~= f);
            assert forall|p: int| first_blank(f, p) implies false by {
                assert(!is_blank(f[p].name@));
            }
        }
        Ok(())
    }

    /// Replaces the devices with what Npcap reports now.
    pub fn refresh(&mut self) -> (r: Result<(), DeviceError>)
        ensures
            r == Err::<(), DeviceError>(DeviceError::DeviceEnumerationFailed),
            final(self).devices_view() == old(self).devices_view(),
    {
        self.refresh_with(Self::enumerate())
    }
}

/// A device built from one entry of Npcap's device list: its name and
/// description with surrounding whitespace dropped (blank ones count as
/// absent), `Available` when the interface is up or running, `Closed`
/// otherwise, and no interface index.
pub fn device_from_entry(name: Option<&str>, description: Option<&str>, flags: u32) -> (r: Option<
    NpcapDevice,
>)
    ensures
        r is Some == (name is Some && !is_blank(name->Some_0@)),
        r matches Some(d) ==> {
            &&& d.name@ == trim(name->Some_0@)
            &&& opt_view(d.description) == (match description {
                Some(t) => if is_blank(t@) {
                    None
                } else {
                    Some(trim(t@))
                },
                None => None,
            })
            &&& d.interface_index is None
            &&& d.state == (if flags & (PCAP_IF_UP | PCAP_IF_RUNNING) != 0 {
                DeviceState::Available
            } else {
                DeviceState::Closed
            })
        },
{
    let name = match name {
        Some(n) => n,
        None => {
            return None;
        },
    };
    if str_is_blank(name) {
        return None;
    }
    let trimmed = trim_str(name);
    proof {
        crate::text::lemma_trim_idempotent(name@);
    }
    let mut device = match NpcapDevice::new(trimmed.as_str()) {
        Some(d) => d,
        None => {
            return None;
        },
    };
    match description {
        Some(text) => {
            if !str_is_blank(text) {
                let t = trim_str(text);
                proof {
                    crate::text::lemma_trim_idempotent(text@);
                }
                device.set_description(t.as_str());
            }
        },
        None => {},
    }
    device.interface_index = None;
    if flags & (PCAP_IF_UP | PCAP_IF_RUNNING) != 0 {
        device.mark_available();
    } else {
        device.state = DeviceState::Closed;
    }
    Some(device)
}

/// A device name without surrounding whitespace; `None` when blank.
pub fn normalize_device_name(name: &str) -> (r: Option<String>)
    ensures
        r is Some == !is_blank(name@),
        r matches Some(s) ==> s@ == trim(name@),
{
    let value = trim_str(name);
    if value.as_str().unicode_len() == 0 {
        None
    } else {
        Some(value)
    }
}

} // verus!
