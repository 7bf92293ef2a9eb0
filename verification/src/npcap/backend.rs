//! The Npcap backend: its lifecycle, and the capture sessions, devices,
//! adapters and metadata it owns.
use vstd::prelude::*;

use crate::npcap::adapter::{has_index, index_slot, AdapterTable};
use crate::npcap::capture::{CaptureConfig, CaptureSession, CaptureState, CapturedPacket};
use crate::npcap::device::DeviceManager;
use crate::npcap::metadata::MetadataTable;
use crate::text::{decimal, decimal_text, owned, push_str, trim};

verus! {

/// Lifecycle of the Npcap backend.
#[derive(Debug, Clone, Copy, PartialEq, Eq, Structural)]
pub enum NpcapBackendState {
    Disabled,
    Starting,
    Running,
    Degraded,
    Failed,
    Stopping,
    Stopped,
}

#[derive(Debug, Clone, Copy, PartialEq, Eq, Structural)]
pub enum NpcapError {
    AlreadyRunning,
    NotRunning,
    InitializationFailed,
    DeviceUnavailable,
    CaptureFailed,
    InvalidCaptureId,
    ObservationCreationFailed,
}

/// A session after the backend stopped: a running session is stopped,
/// any other is left as it was.
pub open spec fn stopped_session(before: CaptureSession, after: CaptureSession) -> bool {
    &&& after.same_counters(before)
    &&& after.spec_state() == (if before.spec_state() == CaptureState::Running {
        CaptureState::Stopped
    } else {
        before.spec_state()
    })
}

/// What an observation of one received packet is made of: its id, the
/// interface it came in on and how that interface is named, and the bytes.
#[derive(Debug, Clone, PartialEq, Eq)]
pub struct NpcapObservation {
    pub observation_id: u64,
    pub interface_index: u32,
    pub interface_identity: String,
    pub original_length: usize,
    pub data: Vec<u8>,
}

/// How the interface `index` is named in an observation: the name of the
/// adapter of that index, or `npcap:` and the index when no adapter has it.
pub open spec fn interface_identity(adapters: AdapterTable, index: u32) -> Seq<char> {
    if index != 0 && has_index(adapters.entries(), index) {
        adapters.entries()[index_slot(adapters.entries(), index)].name@
    } else {
        "npcap:"@ + decimal(index as nat)
    }
}

/// The observation id handed out after `id`; the counter wraps.
pub open spec fn next_id(id: u64) -> u64 {
    if id == u64::MAX {
        0
    } else {
        (id + 1) as u64
    }
}

/// The Npcap backend and what it owns.
#[derive(Debug)]
pub struct NpcapBackend {
    state: NpcapBackendState,
    devices: DeviceManager,
    adapters: AdapterTable,
    metadata: MetadataTable,
    captures: Vec<CaptureSession>,
    next_observation_id: u64,
}

impl NpcapBackend {
    pub closed spec fn state_view(self) -> NpcapBackendState {
        self.state
    }

    pub closed spec fn devices_view(self) -> DeviceManager {
        self.devices
    }

    pub closed spec fn adapters_view(self) -> AdapterTable {
        self.adapters
    }

    pub closed spec fn metadata_view(self) -> MetadataTable {
        self.metadata
    }

    pub closed spec fn captures_view(self) -> Seq<CaptureSession> {
        self.captures@
    }

    /// The id the next observation gets.
    pub closed spec fn observation_counter(self) -> u64 {
        self.next_observation_id
    }

    /// Everything but the lifecycle state is that of `other`.
    pub open spec fn same_contents(self, other: Self) -> bool {
        &&& self.devices_view() == other.devices_view()
        &&& self.adapters_view() == other.adapters_view()
        &&& self.metadata_view() == other.metadata_view()
        &&& self.captures_view() == other.captures_view()
        &&& self.observation_counter() == other.observation_counter()
    }

    /// A stopped backend that owns nothing.
    pub fn new() -> (r: Self)
        ensures
            r.state_view() == NpcapBackendState::Stopped,
            r.devices_view().devices_view().len() == 0,
            r.adapters_view().entries().len() == 0,
            r.metadata_view().packets_view().len() == 0,
            r.metadata_view().adapters_view().len() == 0,
            r.captures_view().len() == 0,
            r.observation_counter() == 1,
    {
        NpcapBackend {
            state: NpcapBackendState::Stopped,
            devices: DeviceManager::new(),
            adapters: AdapterTable::new(),
            metadata: MetadataTable::new(),
            captures: Vec::new(),
            next_observation_id: 1,
        }
    }

    /// Starts the backend; a running backend refuses.
    pub fn start(&mut self) -> (r: Result<(), NpcapError>)
        ensures
            final(self).same_contents(*old(self)),
            old(self).state_view() == NpcapBackendState::Running ==> r == Err::<(), NpcapError>(
                NpcapError::AlreadyRunning,
            ) && final(self).state_view() == old(self).state_view(),
            old(self).state_view() != NpcapBackendState::Running ==> r is Ok && final(self).state_view() == NpcapBackendState::Running,
    {
        if self.state == NpcapBackendState::Running {
            return Err(NpcapError::AlreadyRunning);
        }
        self.state = NpcapBackendState::Starting;
        self.state = NpcapBackendState::Running;
        Ok(())
    }

    /// Stops a running or degraded backend, stopping every running capture
    /// session.
    pub fn stop(&mut self) -> (r: Result<(), NpcapError>)
        ensures
            r is Ok == (old(self).state_view() == NpcapBackendState::Running || old(self).state_view() == NpcapBackendState::Degraded),
            r is Err ==> r == Err::<(), NpcapError>(NpcapError::NotRunning) && *final(self) == *old(self),
            r is Ok ==> {
                &&& final(self).state_view() == NpcapBackendState::Stopped
                &&& final(self).devices_view() == old(self).devices_view()
                &&& final(self).adapters_view() == old(self).adapters_view()
                &&& final(self).metadata_view() == old(self).metadata_view()
                &&& final(self).captures_view().len() == old(self).captures_view().len()
                &&& forall|i: int|
                    0 <= i < old(self).captures_view().len() ==> stopped_session(
                        #[trigger] old(self).captures_view()[i],
                        final(self).captures_view()[i],
                    )
            },
    {
        if self.state != NpcapBackendState::Running && self.state != NpcapBackendState::Degraded {
            return Err(NpcapError::NotRunning);
        }
        self.state = NpcapBackendState::Stopping;
        let ghost before = self.captures@;
        let mut i: usize = 0;
        while i < self.captures.len()
            invariant
                i <= self.captures@.len(),
                self.captures@.len() == before.len(),
                forall|k: int| 0 <= k < i ==> stopped_session(#[trigger] before[k], self.captures@[k]),
                forall|k: int| i <= k < before.len() ==> #[trigger] self.captures@[k] == before[k],
                before == old(self).captures@,
                self.devices == old(self).devices,
                self.adapters == old(self).adapters,
                self.metadata == old(self).metadata,
            decreases self.captures@.len() - i,
        {
            if self.captures[i].is_running() {
                let mut session = self.captures.remove(i);
                let _ = session.stop();
                self.captures.insert(i, session);
            }
            proof {
                assert(stopped_session(before[i as int], self.captures@[i as int]));
            }
            i = i + 1;
        }
        self.state = NpcapBackendState::Stopped;
        Ok(())
    }

    pub fn state(&self) -> (r: NpcapBackendState)
        ensures
            r == self.state_view(),
    {
        self.state
    }

    pub fn is_running(&self) -> (r: bool)
        ensures
            r == (self.state_view() == NpcapBackendState::Running),
    {
        self.state == NpcapBackendState::Running
    }

    /// A running backend becomes degraded; any other keeps its state.
    pub fn degrade(&mut self)
        ensures
            final(self).same_contents(*old(self)),
            final(self).state_view() == (if old(self).state_view() == NpcapBackendState::Running {
                NpcapBackendState::Degraded
            } else {
                old(self).state_view()
            }),
    {
        if self.is_running() {
            self.state = NpcapBackendState::Degraded;
        }
    }

    pub fn fail(&mut self)
        ensures
            final(self).same_contents(*old(self)),
            final(self).state_view() == NpcapBackendState::Failed,
    {
        self.state = NpcapBackendState::Failed;
    }

    pub fn devices(&self) -> (r: &DeviceManager)
        ensures
            *r == self.devices_view(),
    {
        &self.devices
    }

    pub fn devices_mut(&mut self) -> (r: &mut DeviceManager)
        ensures
            *r == old(self).devices_view(),
            final(self).devices_view() == *final(r),
            final(self).state_view() == old(self).state_view(),
            final(self).adapters_view() == old(self).adapters_view(),
            final(self).metadata_view() == old(self).metadata_view(),
            final(self).captures_view() == old(self).captures_view(),
    {
        &mut self.devices
    }

    pub fn adapters(&self) -> (r: &AdapterTable)
        ensures
            *r == self.adapters_view(),
    {
        &self.adapters
    }

    pub fn adapters_mut(&mut self) -> (r: &mut AdapterTable)
        ensures
            *r == old(self).adapters_view(),
            final(self).adapters_view() == *final(r),
            final(self).state_view() == old(self).state_view(),
            final(self).devices_view() == old(self).devices_view(),
            final(self).metadata_view() == old(self).metadata_view(),
            final(self).captures_view() == old(self).captures_view(),
    {
        &mut self.adapters
    }

    pub fn metadata(&self) -> (r: &MetadataTable)
        ensures
            *r == self.metadata_view(),
    {
        &self.metadata
    }

    pub fn metadata_mut(&mut self) -> (r: &mut MetadataTable)
        ensures
            *r == old(self).metadata_view(),
            final(self).metadata_view() == *final(r),
            final(self).state_view() == old(self).state_view(),
            final(self).devices_view() == old(self).devices_view(),
            final(self).adapters_view() == old(self).adapters_view(),
            final(self).captures_view() == old(self).captures_view(),
    {
        &mut self.metadata
    }

    pub fn captures(&self) -> (r: &[CaptureSession])
        ensures
            r@ == self.captures_view(),
    {
        self.captures.as_slice()
    }

    /// Adds a stopped capture session for `config` and returns its
    /// identifier, its position among the sessions.
    pub fn create_capture(&mut self, config: CaptureConfig) -> (r: Result<usize, NpcapError>)
        ensures
            old(self).state_view() != NpcapBackendState::Running ==> r == Err::<usize, NpcapError>(
                NpcapError::NotRunning,
            ),
            old(self).state_view() == NpcapBackendState::Running && !config.spec_valid() ==> r
                == Err::<usize, NpcapError>(NpcapError::CaptureFailed),
            old(self).state_view() == NpcapBackendState::Running && config.spec_valid() ==> r == Ok::<
                usize,
                NpcapError,
            >(old(self).captures_view().len() as usize),
            r is Err ==> *final(self) == *old(self),
            r matches Ok(id) ==> {
                &&& old(self).state_view() == NpcapBackendState::Running && config.spec_valid()
                &&& id == old(self).captures_view().len()
                &&& final(self).captures_view().len() == id + 1
                &&& final(self).captures_view().subrange(0, id as int) == old(self).captures_view()
                &&& final(self).captures_view()[id as int].spec_config() == config
                &&& final(self).captures_view()[id as int].spec_state() == CaptureState::Stopped
                &&& final(self).captures_view()[id as int].spec_packets() == 0
                &&& final(self).captures_view()[id as int].spec_bytes() == 0
                &&& final(self).state_view() == old(self).state_view()
                &&& final(self).devices_view() == old(self).devices_view()
                &&& final(self).adapters_view() == old(self).adapters_view()
                &&& final(self).metadata_view() == old(self).metadata_view()
            },
    {
        if !self.is_running() {
            return Err(NpcapError::NotRunning);
        }
        let session = match CaptureSession::new(config) {
            Ok(s) => s,
            Err(_) => {
                return Err(NpcapError::CaptureFailed);
            },
        };
        self.captures.push(session);
        proof {
            assert(self.captures@.subrange(0, self.captures@.len() - 1) =~= old(self).captures@);
        }
        Ok(self.captures.len() - 1)
    }

    /// Starts capture session `capture_id` on the adapter of its
    /// configured interface.
    pub fn start_capture(&mut self, capture_id: usize) -> (r: Result<(), NpcapError>)
        ensures
            final(self).state_view() == old(self).state_view(),
            final(self).devices_view() == old(self).devices_view(),
            final(self).adapters_view() == old(self).adapters_view(),
            final(self).metadata_view() == old(self).metadata_view(),
            old(self).state_view() != NpcapBackendState::Running ==> r == Err::<(), NpcapError>(
                NpcapError::NotRunning,
            ) && *final(self) == *old(self),
            old(self).state_view() == NpcapBackendState::Running && capture_id >= old(self).captures_view().len() ==> r == Err::<(), NpcapError>(NpcapError::InvalidCaptureId)
                && *final(self) == *old(self),
            old(self).state_view() == NpcapBackendState::Running && capture_id < old(self).captures_view().len() ==> {
                let s = old(self).captures_view()[capture_id as int];
                let ix = s.spec_config().interface_index;
                let table = old(self).adapters_view().entries();
                &&& !has_index(table, ix) ==> r == Err::<(), NpcapError>(
                    NpcapError::DeviceUnavailable,
                ) && *final(self) == *old(self)
                &&& has_index(table, ix) ==> {
                    let name = table[index_slot(table, ix)].name@;
                    let t = final(self).captures_view()[capture_id as int];
                    &&& final(self).captures_view() == old(self).captures_view().update(
                        capture_id as int,
                        t,
                    )
                    &&& t.same_counters(s)
                    &&& s.spec_state() == CaptureState::Running ==> r == Err::<(), NpcapError>(
                        NpcapError::CaptureFailed,
                    ) && t.spec_state() == CaptureState::Running
                    &&& s.spec_state() != CaptureState::Running && trim(name).len() == 0 ==> r
                        == Err::<(), NpcapError>(NpcapError::CaptureFailed) && t.spec_state()
                        == CaptureState::Failed
                    &&& s.spec_state() != CaptureState::Running && trim(name).len() > 0 ==> r is Ok
                        && t.spec_state() == CaptureState::Running
                }
            },
    {
        if !self.is_running() {
            return Err(NpcapError::NotRunning);
        }
        if capture_id >= self.captures.len() {
            return Err(NpcapError::InvalidCaptureId);
        }
        let interface_index = self.captures[capture_id].config().interface_index;
        let device_name = match self.adapters.get(interface_index) {
            Ok(adapter) => owned(adapter.name.as_str()),
            Err(_) => {
                return Err(NpcapError::DeviceUnavailable);
            },
        };
        let mut session = self.captures.remove(capture_id);
        let started = session.start(device_name.as_str());
        self.captures.insert(capture_id, session);
        proof {
            assert(self.captures@ =~= old(self).captures@.update(capture_id as int, session));
        }
        match started {
            Ok(()) => Ok(()),
            Err(_) => Err(NpcapError::CaptureFailed),
        }
    }

    /// Stops capture session `capture_id`.
    pub fn stop_capture(&mut self, capture_id: usize) -> (r: Result<(), NpcapError>)
        ensures
            final(self).state_view() == old(self).state_view(),
            final(self).devices_view() == old(self).devices_view(),
            final(self).adapters_view() == old(self).adapters_view(),
            final(self).metadata_view() == old(self).metadata_view(),
            capture_id >= old(self).captures_view().len() ==> r == Err::<(), NpcapError>(
                NpcapError::InvalidCaptureId,
            ) && *final(self) == *old(self),
            capture_id < old(self).captures_view().len() ==> {
                let s = old(self).captures_view()[capture_id as int];
                let t = final(self).captures_view()[capture_id as int];
                &&& final(self).captures_view() == old(self).captures_view().update(
                    capture_id as int,
                    t,
                )
                &&& t.same_counters(s)
                &&& s.spec_state() == CaptureState::Running ==> r is Ok && t.spec_state()
                    == CaptureState::Stopped
                &&& s.spec_state() != CaptureState::Running ==> r == Err::<(), NpcapError>(
                    NpcapError::CaptureFailed,
                ) && t.spec_state() == s.spec_state()
            },
    {
        if capture_id >= self.captures.len() {
            return Err(NpcapError::InvalidCaptureId);
        }
        let mut session = self.captures.remove(capture_id);
        let stopped = session.stop();
        self.captures.insert(capture_id, session);
        proof {
            assert(self.captures@ =~= old(self).captures@.update(capture_id as int, session));
        }
        match stopped {
            Ok(()) => Ok(()),
            Err(_) => Err(NpcapError::CaptureFailed),
        }
    }

    /// Reads one packet from capture session `capture_id`; `Ok(None)` is a
    /// timeout, not a failure. Without a native handle no packet ever
    /// arrives.
    pub fn receive_packet(&mut self, capture_id: usize) -> (r: Result<Option<CapturedPacket>, NpcapError>)
        ensures
            final(self).same_contents(*old(self)),
            final(self).state_view() == old(self).state_view(),
            old(self).state_view() != NpcapBackendState::Running && old(self).state_view()
                != NpcapBackendState::Degraded ==> r == Err::<Option<CapturedPacket>, NpcapError>(
                NpcapError::NotRunning,
            ),
            (old(self).state_view() == NpcapBackendState::Running || old(self).state_view()
                == NpcapBackendState::Degraded) ==> {
                &&& capture_id >= old(self).captures_view().len() ==> r == Err::<
                    Option<CapturedPacket>,
                    NpcapError,
                >(NpcapError::InvalidCaptureId)
                &&& capture_id < old(self).captures_view().len() && old(self).captures_view()[capture_id as int].spec_state() != CaptureState::Running ==> r
                    == Err::<Option<CapturedPacket>, NpcapError>(NpcapError::CaptureFailed)
                &&& capture_id < old(self).captures_view().len() && old(self).captures_view()[capture_id as int].spec_state() == CaptureState::Running ==> r
                    == Ok::<Option<CapturedPacket>, NpcapError>(None)
            },
    {
        if !self.is_running() && self.state != NpcapBackendState::Degraded {
            return Err(NpcapError::NotRunning);
        }
        if capture_id >= self.captures.len() {
            return Err(NpcapError::InvalidCaptureId);
        }
        if !self.captures[capture_id].is_running() {
            return Err(NpcapError::CaptureFailed);
        }
        let mut session = self.captures.remove(capture_id);
        let received = session.receive_packet();
        self.captures.insert(capture_id, session);
        proof {
            assert(self.captures@ =~= old(self).captures@);
        }
        match received {
            Ok(p) => Ok(p),
            Err(_) => Err(NpcapError::CaptureFailed),
        }
    }

    /// Forgets every capture session, device, adapter and metadata entry;
    /// the lifecycle state stays.
    pub fn clear_runtime_state(&mut self)
        ensures
            final(self).state_view() == old(self).state_view(),
            final(self).captures_view().len() == 0,
            final(self).devices_view().devices_view().len() == 0,
            final(self).adapters_view().entries().len() == 0,
            final(self).metadata_view().packets_view().len() == 0,
            final(self).metadata_view().adapters_view().len() == 0,
            final(self).observation_counter() == 1,
    {
        self.captures.clear();
        self.metadata.clear();
        self.adapters.clear();
        self.devices.clear();
        self.next_observation_id = 1;
    }

    /// The id the next observation will get.
    pub fn next_observation_id(&self) -> (r: u64)
        ensures
            r == self.observation_counter(),
    {
        self.next_observation_id
    }

    /// Turns a received packet into an observation: names its interface,
    /// refuses a packet without bytes and hands out the next id.
    pub fn observe_packet(&mut self, packet: CapturedPacket) -> (r: Result<NpcapObservation, NpcapError>)
        ensures
            final(self).state_view() == old(self).state_view(),
            final(self).devices_view() == old(self).devices_view(),
            final(self).adapters_view() == old(self).adapters_view(),
            final(self).metadata_view() == old(self).metadata_view(),
            final(self).captures_view() == old(self).captures_view(),
            r is Err == (packet.data@.len() == 0),
            r is Err ==> r == Err::<NpcapObservation, NpcapError>(NpcapError::ObservationCreationFailed)
                && final(self).observation_counter() == old(self).observation_counter(),
            r matches Ok(o) ==> {
                &&& o.observation_id == old(self).observation_counter()
                &&& final(self).observation_counter() == next_id(old(self).observation_counter())
                &&& o.interface_index == packet.interface_index
                &&& o.interface_identity@ == interface_identity(
                    old(self).adapters_view(),
                    packet.interface_index,
                )
                &&& o.original_length == packet.original_length
                &&& o.data@ == packet.data@
            },
    {
        let index = packet.interface_index;
        let identity = match self.adapters.get(index) {
            Ok(adapter) => adapter.name.clone(),
            Err(_) => {
                let mut s = owned("npcap:");
                push_str(&mut s, decimal_text(index).as_str());
                s
            },
        };
        if packet.data.len() == 0 {
            return Err(NpcapError::ObservationCreationFailed);
        }
        let id = self.next_observation_id;
        self.next_observation_id = if id == u64::MAX {
            0
        } else {
            id + 1
        };
        Ok(NpcapObservation {
            observation_id: id,
            interface_index: index,
            interface_identity: identity,
            original_length: packet.original_length,
            data: packet.data,
        })
    }

    /// Reads one packet from capture session `capture_id` and turns it into
    /// an observation; a timeout is a capture failure here.
    pub fn receive_observation(&mut self, capture_id: usize) -> (r: Result<NpcapObservation, NpcapError>)
        ensures
            final(self).same_contents(*old(self)),
            final(self).state_view() == old(self).state_view(),
            old(self).state_view() != NpcapBackendState::Running && old(self).state_view()
                != NpcapBackendState::Degraded ==> r == Err::<NpcapObservation, NpcapError>(
                NpcapError::NotRunning,
            ),
            (old(self).state_view() == NpcapBackendState::Running || old(self).state_view()
                == NpcapBackendState::Degraded) ==> {
                &&& capture_id >= old(self).captures_view().len() ==> r == Err::<
                    NpcapObservation,
                    NpcapError,
                >(NpcapError::InvalidCaptureId)
                &&& capture_id < old(self).captures_view().len() ==> r == Err::<
                    NpcapObservation,
                    NpcapError,
                >(NpcapError::CaptureFailed)
            },
    {
        match self.receive_packet(capture_id) {
            Err(e) => Err(e),
            Ok(None) => Err(NpcapError::CaptureFailed),
            Ok(Some(packet)) => self.observe_packet(packet),
        }
    }
}

impl Default for NpcapBackend {
    fn default() -> (r: Self)
        ensures
            r.state_view() == NpcapBackendState::Stopped,
            r.captures_view().len() == 0,
    {
        Self::new()
    }
}

} // verus!
