//! The neighbor (ARP / NDP) cache: which link-layer address an IP address
//! on an interface resolves to, and how sure the system is of it.
use vstd::prelude::*;

use std::time::{Duration, SystemTime};

use crate::clock::{
    age_marks, duration_as_nanos, duration_from_secs, system_duration_since, system_now, within_age,
};
use crate::iphelper::retain::{kept, lemma_kept_len, lemma_kept_members, retain_marked};
use crate::iphelper::sockaddr::{parse_sockaddr_inet, spec_sockaddr_inet};
use crate::net::IpAddress;

verus! {

/// Reachability of a neighbor (`NL_NEIGHBOR_STATE`).
#[derive(Debug, Clone, Copy, PartialEq, Eq, Structural)]
pub enum NeighborState {
    Unreachable,
    Incomplete,
    Probe,
    Delay,
    Stale,
    Reachable,
    Permanent,
    Unknown,
}

impl NeighborState {
    pub open spec fn spec_is_usable(self) -> bool {
        self is Reachable || self is Stale || self is Permanent
    }

    /// A reachable, stale or permanent entry can be used to send.
    pub fn is_usable(self) -> (r: bool)
        ensures
            r == self.spec_is_usable(),
    {
        matches!(self, NeighborState::Reachable | NeighborState::Stale | NeighborState::Permanent)
    }

    pub fn is_failed(self) -> (r: bool)
        ensures
            r == (self is Unreachable),
    {
        matches!(self, NeighborState::Unreachable)
    }
}

/// The state an `NL_NEIGHBOR_STATE` value stands for: the states are
/// numbered from 0 in the order `Unreachable`, `Incomplete`, `Probe`,
/// `Delay`, `Stale`, `Reachable`, `Permanent`.
pub open spec fn spec_neighbor_state(state: u32) -> NeighborState {
    if state == 0 {
        NeighborState::Unreachable
    } else if state == 1 {
        NeighborState::Incomplete
    } else if state == 2 {
        NeighborState::Probe
    } else if state == 3 {
        NeighborState::Delay
    } else if state == 4 {
        NeighborState::Stale
    } else if state == 5 {
        NeighborState::Reachable
    } else if state == 6 {
        NeighborState::Permanent
    } else {
        NeighborState::Unknown
    }
}

pub fn map_neighbor_state(state: u32) -> (r: NeighborState)
    ensures
        r == spec_neighbor_state(state),
{
    match state {
        0 => NeighborState::Unreachable,
        1 => NeighborState::Incomplete,
        2 => NeighborState::Probe,
        3 => NeighborState::Delay,
        4 => NeighborState::Stale,
        5 => NeighborState::Reachable,
        6 => NeighborState::Permanent,
        _ => NeighborState::Unknown,
    }
}

/// A neighbor is named by its address and its interface.
#[derive(Debug, Clone, Copy, PartialEq, Eq, Structural, Hash)]
pub struct NeighborKey {
    pub address: IpAddress,
    pub interface_index: u32,
}

impl NeighborKey {
    /// `None` on interface 0.
    pub fn new(address: IpAddress, interface_index: u32) -> (r: Option<Self>)
        ensures
            r is Some == (interface_index != 0),
            r matches Some(k) ==> k.address == address && k.interface_index == interface_index,
    {
        if interface_index == 0 {
            return None;
        }
        Some(NeighborKey { address, interface_index })
    }
}

/// One neighbor entry and when it was last updated.
#[derive(Debug, PartialEq, Eq)]
pub struct NeighborInfo {
    pub key: NeighborKey,
    pub mac_address: Option<[u8; 6]>,
    pub state: NeighborState,
    pub updated_at: SystemTime,
}

impl Clone for NeighborInfo {
    fn clone(&self) -> (r: Self)
        ensures
            r == *self,
    {
        NeighborInfo {
            key: self.key,
            mac_address: self.mac_address,
            state: self.state,
            updated_at: self.updated_at,
        }
    }
}

impl NeighborInfo {
    pub open spec fn spec_is_usable(self) -> bool {
        self.state.spec_is_usable() && self.mac_address is Some
    }

    /// An entry updated now; `None` on interface 0.
    pub fn new(address: IpAddress, interface_index: u32, mac_address: Option<[u8; 6]>, state: NeighborState) -> (r:
        Option<Self>)
        ensures
            r is Some == (interface_index != 0),
            r matches Some(n) ==> n.key.address == address && n.key.interface_index
                == interface_index && n.mac_address == mac_address && n.state == state,
    {
        let key = match NeighborKey::new(address, interface_index) {
            Some(k) => k,
            None => {
                return None;
            },
        };
        Some(NeighborInfo { key, mac_address, state, updated_at: system_now() })
    }

    pub fn address(&self) -> (r: IpAddress)
        ensures
            r == self.key.address,
    {
        self.key.address
    }

    pub fn interface_index(&self) -> (r: u32)
        ensures
            r == self.key.interface_index,
    {
        self.key.interface_index
    }

    pub fn has_mac(&self) -> (r: bool)
        ensures
            r == (self.mac_address is Some),
    {
        self.mac_address.is_some()
    }

    /// Usable state and a known link-layer address.
    pub fn is_usable(&self) -> (r: bool)
        ensures
            r == self.spec_is_usable(),
    {
        self.state.is_usable() && self.mac_address.is_some()
    }

    /// How long ago the entry was updated; zero when the clock went back.
    pub fn age(&self) -> Duration {
        let now = system_now();
        match system_duration_since(&now, &self.updated_at) {
            Some(d) => d,
            None => duration_from_secs(0),
        }
    }

    /// Marks the entry as updated now.
    pub fn touch(&mut self)
        ensures
            final(self).key == old(self).key,
            final(self).mac_address == old(self).mac_address,
            final(self).state == old(self).state,
    {
        self.updated_at = system_now();
    }
}

/// A neighbor entry read from one `MIB_IPNET_ROW2`: the address in its
/// `SOCKADDR_INET`, the interface, the first six bytes of the physical
/// address when it has at least six, and the state. Rows of another
/// address family or of interface 0 give nothing.
pub fn neighbor_from_row(
    address: &[u8; 28],
    interface_index: u32,
    physical_address: &[u8; 32],
    physical_address_length: u32,
    state: u32,
) -> (r: Option<NeighborInfo>)
    ensures
        r is Some == (spec_sockaddr_inet(address@) is Some && interface_index != 0),
        r matches Some(n) ==> {
            &&& Some(n.key.address) == spec_sockaddr_inet(address@)
            &&& n.key.interface_index == interface_index
            &&& n.state == spec_neighbor_state(state)
            &&& n.mac_address == (if physical_address_length >= 6 {
                Some(
                    [
                        physical_address@[0],
                        physical_address@[1],
                        physical_address@[2],
                        physical_address@[3],
                        physical_address@[4],
                        physical_address@[5],
                    ],
                )
            } else {
                None
            })
        },
{
    let addr = match parse_sockaddr_inet(address) {
        Some(a) => a,
        None => {
            return None;
        },
    };
    if interface_index == 0 {
        return None;
    }
    let state = map_neighbor_state(state);
    let mac = if physical_address_length >= 6 {
        Some(
            [
                physical_address[0],
                physical_address[1],
                physical_address[2],
                physical_address[3],
                physical_address[4],
                physical_address[5],
            ],
        )
    } else {
        None
    };
    NeighborInfo::new(addr, interface_index, mac, state)
}

#[derive(Debug, Clone, PartialEq, Eq, Structural)]
pub enum NeighborTableError {
    InvalidInterface,
    NeighborNotFound,
    SystemError(i32),
}

/// The error that a failed native query of this table reports: the status
/// the system call returned, read as a signed number.
pub fn fetch_failure(status: u32) -> (r: NeighborTableError)
    ensures
        r == NeighborTableError::SystemError(status as i32),
{
    NeighborTableError::SystemError(status as i32)
}

/// Position `i` holds the first entry of key `k`.
pub open spec fn is_first_neighbor(s: Seq<NeighborInfo>, k: NeighborKey, i: int) -> bool {
    &&& 0 <= i < s.len()
    &&& s[i].key == k
    &&& forall|j: int| 0 <= j < i ==> (#[trigger] s[j]).key != k
}

pub open spec fn has_neighbor(s: Seq<NeighborInfo>, k: NeighborKey) -> bool {
    exists|i: int| is_first_neighbor(s, k, i)
}

pub open spec fn neighbor_slot(s: Seq<NeighborInfo>, k: NeighborKey) -> int {
    choose|i: int| is_first_neighbor(s, k, i)
}

/// Entry `after` is entry `before` with a new state and update time.
pub open spec fn restated(before: NeighborInfo, after: NeighborInfo, state: NeighborState) -> bool {
    after.key == before.key && after.mac_address == before.mac_address && after.state == state
}

/// Entry `after` is entry `before` with a new link-layer address and
/// update time.
pub open spec fn readdressed(before: NeighborInfo, after: NeighborInfo, mac: [u8; 6]) -> bool {
    after.key == before.key && after.mac_address == Some(mac) && after.state == before.state
}

/// The table after `n` is inserted into `s`.
pub open spec fn upsert(s: Seq<NeighborInfo>, n: NeighborInfo) -> Seq<NeighborInfo> {
    if has_neighbor(s, n.key) {
        s.update(neighbor_slot(s, n.key), n)
    } else {
        s.push(n)
    }
}

/// The table after each of `f` is inserted into `s`, in order.
pub open spec fn upsert_all(s: Seq<NeighborInfo>, f: Seq<NeighborInfo>) -> Seq<NeighborInfo>
    decreases f.len(),
{
    if f.len() == 0 {
        s
    } else {
        upsert(upsert_all(s, f.drop_last()), f.last())
    }
}

/// For each entry of `s`, whether an entry of `f` has its key.
pub open spec fn reported(s: Seq<NeighborInfo>, f: Seq<NeighborInfo>) -> Seq<bool> {
    Seq::new(s.len(), |i: int| exists|j: int| 0 <= j < f.len() && (#[trigger] f[j]).key == s[i].key)
}

/// The first entry of `f` on interface 0.
pub open spec fn first_unattached(f: Seq<NeighborInfo>, p: int) -> bool {
    &&& 0 <= p < f.len()
    &&& f[p].key.interface_index == 0
    &&& forall|j: int| 0 <= j < p ==> (#[trigger] f[j]).key.interface_index != 0
}

/// The neighbor entries, in the order they were first inserted.
#[derive(Debug)]
pub struct NeighborTable {
    neighbors: Vec<NeighborInfo>,
}

impl NeighborTable {
    pub closed spec fn entries(self) -> Seq<NeighborInfo> {
        self.neighbors@
    }

    pub fn new() -> (r: Self)
        ensures
            r.entries() == Seq::<NeighborInfo>::empty(),
    {
        NeighborTable { neighbors: Vec::new() }
    }

    fn position(&self, k: NeighborKey) -> (r: Option<usize>)
        ensures
            r is Some == has_neighbor(self.entries(), k),
            r matches Some(i) ==> is_first_neighbor(self.entries(), k, i as int) && i
                == neighbor_slot(self.entries(), k),
    {
        let mut i: usize = 0;
        while i < self.neighbors.len()
            invariant
                i <= self.neighbors@.len(),
                forall|j: int| 0 <= j < i ==> (#[trigger] self.neighbors@[j]).key != k,
            decreases self.neighbors@.len() - i,
        {
            if self.neighbors[i].key == k {
                proof {
                    lemma_first_neighbor_unique(self.neighbors@, k, i as int);
                }
                return Some(i);
            }
            i = i + 1;
        }
        proof {
            if has_neighbor(self.neighbors@, k) {
                let j = choose|j: int| is_first_neighbor(self.neighbors@, k, j);
                assert(self.neighbors@[j].key != k);
            }
        }
        None
    }

    /// Adds an entry, replacing the entry of the same key; interface 0 is
    /// refused.
    pub fn insert(&mut self, neighbor: NeighborInfo) -> (r: Result<(), NeighborTableError>)
        ensures
            neighbor.key.interface_index == 0 ==> r == Err::<(), NeighborTableError>(
                NeighborTableError::InvalidInterface,
            ) && final(self).entries() == old(self).entries(),
            neighbor.key.interface_index != 0 ==> r is Ok && final(self).entries() == (
            if has_neighbor(old(self).entries(), neighbor.key) {
                old(self).entries().update(neighbor_slot(old(self).entries(), neighbor.key), neighbor)
            } else {
                old(self).entries().push(neighbor)
            }),
    {
        if neighbor.interface_index() == 0 {
            return Err(NeighborTableError::InvalidInterface);
        }
        match self.position(neighbor.key) {
            Some(i) => {
                self.neighbors.set(i, neighbor);
            },
            None => {
                self.neighbors.push(neighbor);
            },
        }
        Ok(())
    }

    /// The entry for `address` on `interface_index`.
    pub fn get(&self, address: IpAddress, interface_index: u32) -> (r: Result<&NeighborInfo, NeighborTableError>)
        ensures
            interface_index == 0 ==> r == Err::<&NeighborInfo, NeighborTableError>(
                NeighborTableError::InvalidInterface,
            ),
            ({
                let k = NeighborKey { address, interface_index };
                &&& interface_index != 0 && !has_neighbor(self.entries(), k) ==> r == Err::<
                    &NeighborInfo,
                    NeighborTableError,
                >(NeighborTableError::NeighborNotFound)
                &&& r is Ok == (interface_index != 0 && has_neighbor(self.entries(), k))
                &&& r matches Ok(n) ==> *n == self.entries()[neighbor_slot(self.entries(), k)]
            }),
    {
        if interface_index == 0 {
            return Err(NeighborTableError::InvalidInterface);
        }
        match self.position(NeighborKey { address, interface_index }) {
            Some(i) => Ok(&self.neighbors[i]),
            None => Err(NeighborTableError::NeighborNotFound),
        }
    }

    /// The entry for `address` on `interface_index`, to change in place.
    pub fn get_mut(&mut self, address: IpAddress, interface_index: u32) -> (r: Result<
        &mut NeighborInfo,
        NeighborTableError,
    >)
        ensures
            interface_index == 0 ==> r == Err::<&mut NeighborInfo, NeighborTableError>(
                NeighborTableError::InvalidInterface,
            ) && final(self).entries() == old(self).entries(),
            ({
                let k = NeighborKey { address, interface_index };
                &&& interface_index != 0 && !has_neighbor(old(self).entries(), k) ==> r == Err::<
                    &mut NeighborInfo,
                    NeighborTableError,
                >(NeighborTableError::NeighborNotFound) && final(self).entries() == old(self).entries()
                &&& r is Ok == (interface_index != 0 && has_neighbor(old(self).entries(), k))
                &&& r is Ok ==> *r->Ok_0 == old(self).entries()[neighbor_slot(old(self).entries(), k)]
                    && final(self).entries() == old(self).entries().update(
                    neighbor_slot(old(self).entries(), k),
                    *final(r->Ok_0),
                )
            }),
    {
        if interface_index == 0 {
            return Err(NeighborTableError::InvalidInterface);
        }
        match self.position(NeighborKey { address, interface_index }) {
            Some(i) => Ok(&mut self.neighbors[i]),
            None => Err(NeighborTableError::NeighborNotFound),
        }
    }

    /// Gives an entry a new state, updated now.
    pub fn update_state(&mut self, address: IpAddress, interface_index: u32, state: NeighborState) -> (r:
        Result<(), NeighborTableError>)
        ensures
            ({
                let k = NeighborKey { address, interface_index };
                &&& interface_index == 0 ==> r == Err::<(), NeighborTableError>(
                    NeighborTableError::InvalidInterface,
                )
                &&& interface_index != 0 && !has_neighbor(old(self).entries(), k) ==> r == Err::<
                    (),
                    NeighborTableError,
                >(NeighborTableError::NeighborNotFound)
                &&& r is Err ==> final(self).entries() == old(self).entries()
                &&& r is Ok == (interface_index != 0 && has_neighbor(old(self).entries(), k))
                &&& r is Ok ==> {
                    let i = neighbor_slot(old(self).entries(), k);
                    &&& final(self).entries().len() == old(self).entries().len()
                    &&& forall|j: int|
                        0 <= j < old(self).entries().len() && j != i ==> final(self).entries()[j]
                            == old(self).entries()[j]
                    &&& restated(old(self).entries()[i], final(self).entries()[i], state)
                }
            }),
    {
        let neighbor = self.get_mut(address, interface_index)?;
        neighbor.state = state;
        neighbor.touch();
        Ok(())
    }

    /// Gives an entry a new link-layer address, updated now.
    pub fn update_mac(&mut self, address: IpAddress, interface_index: u32, mac_address: [u8; 6]) -> (r:
        Result<(), NeighborTableError>)
        ensures
            ({
                let k = NeighborKey { address, interface_index };
                &&& interface_index == 0 ==> r == Err::<(), NeighborTableError>(
                    NeighborTableError::InvalidInterface,
                )
                &&& interface_index != 0 && !has_neighbor(old(self).entries(), k) ==> r == Err::<
                    (),
                    NeighborTableError,
                >(NeighborTableError::NeighborNotFound)
                &&& r is Err ==> final(self).entries() == old(self).entries()
                &&& r is Ok == (interface_index != 0 && has_neighbor(old(self).entries(), k))
                &&& r is Ok ==> {
                    let i = neighbor_slot(old(self).entries(), k);
                    &&& final(self).entries().len() == old(self).entries().len()
                    &&& forall|j: int|
                        0 <= j < old(self).entries().len() && j != i ==> final(self).entries()[j]
                            == old(self).entries()[j]
                    &&& readdressed(old(self).entries()[i], final(self).entries()[i], mac_address)
                }
            }),
    {
        let neighbor = self.get_mut(address, interface_index)?;
        neighbor.mac_address = Some(mac_address);
        neighbor.touch();
        Ok(())
    }

    /// The link-layer address `address` resolves to on `interface_index`:
    /// only a usable entry resolves.
    pub fn resolve(&self, address: IpAddress, interface_index: u32) -> (r: Result<[u8; 6], NeighborTableError>)
        ensures
            ({
                let k = NeighborKey { address, interface_index };
                let s = self.entries();
                &&& interface_index == 0 ==> r == Err::<[u8; 6], NeighborTableError>(
                    NeighborTableError::InvalidInterface,
                )
                &&& interface_index != 0 && !(has_neighbor(s, k) && s[neighbor_slot(
                    s,
                    k,
                )].spec_is_usable()) ==> r == Err::<[u8; 6], NeighborTableError>(
                    NeighborTableError::NeighborNotFound,
                )
                &&& r is Ok == (interface_index != 0 && has_neighbor(s, k) && s[neighbor_slot(
                    s,
                    k,
                )].spec_is_usable())
                &&& r matches Ok(mac) ==> s[neighbor_slot(s, k)].mac_address == Some(mac)
            }),
    {
        let neighbor = self.get(address, interface_index)?;
        if !neighbor.is_usable() {
            return Err(NeighborTableError::NeighborNotFound);
        }
        match neighbor.mac_address {
            Some(mac) => Ok(mac),
            None => Err(NeighborTableError::NeighborNotFound),
        }
    }

    /// Takes out the entry for `address` on `interface_index`.
    pub fn remove(&mut self, address: IpAddress, interface_index: u32) -> (r: Result<NeighborInfo, NeighborTableError>)
        ensures
            ({
                let k = NeighborKey { address, interface_index };
                &&& interface_index == 0 ==> r == Err::<NeighborInfo, NeighborTableError>(
                    NeighborTableError::InvalidInterface,
                )
                &&& interface_index != 0 && !has_neighbor(old(self).entries(), k) ==> r == Err::<
                    NeighborInfo,
                    NeighborTableError,
                >(NeighborTableError::NeighborNotFound)
                &&& r is Err ==> final(self).entries() == old(self).entries()
                &&& r is Ok == (interface_index != 0 && has_neighbor(old(self).entries(), k))
                &&& r matches Ok(n) ==> {
                    let i = neighbor_slot(old(self).entries(), k);
                    &&& n == old(self).entries()[i]
                    &&& final(self).entries() == old(self).entries().remove(i)
                }
            }),
    {
        if interface_index == 0 {
            return Err(NeighborTableError::InvalidInterface);
        }
        let i = match self.position(NeighborKey { address, interface_index }) {
            Some(i) => i,
            None => {
                return Err(NeighborTableError::NeighborNotFound);
            },
        };
        Ok(self.neighbors.remove(i))
    }

    /// Keeps the entries whose mark is set, in order, and says how many
    /// went.
    pub fn retain_marked(&mut self, keep: &[bool]) -> (r: usize)
        requires
            keep@.len() == old(self).entries().len(),
        ensures
            final(self).entries() == kept(old(self).entries(), keep@),
            r == old(self).entries().len() - final(self).entries().len(),
    {
        let before = self.neighbors.len();
        let mut taken: Vec<NeighborInfo> = Vec::new();
        std::mem::swap(&mut taken, &mut self.neighbors);
        self.neighbors = retain_marked(taken, keep);
        proof {
            lemma_kept_len(old(self).neighbors@, keep@);
        }
        before - self.neighbors.len()
    }

    /// Drops the entries whose age in nanoseconds, as `ages_ns` gives it
    /// position by position, is over `max_ns`, and says how many went.
    pub fn remove_older_than(&mut self, ages_ns: &[u128], max_ns: u128) -> (r: usize)
        requires
            ages_ns@.len() == old(self).entries().len(),
        ensures
            final(self).entries() == kept(old(self).entries(), within_age(ages_ns@, max_ns)),
            r == old(self).entries().len() - final(self).entries().len(),
    {
        let marks = age_marks(ages_ns, max_ns);
        self.retain_marked(marks.as_slice())
    }

    /// Drops the entries not seen within `max_age`, and says how many went.
    /// The ages are read from the clock, so which ones go depends on when
    /// this runs: they are those whose age is over `max_age`, as
    /// `remove_older_than` decides from the readings.
    pub fn remove_expired(&mut self, max_age: Duration) -> (r: usize)
        ensures
            exists|ages_ns: Seq<u128>, max_ns: u128|
                ages_ns.len() == old(self).entries().len() && final(self).entries() == kept(
                    old(self).entries(),
                    within_age(ages_ns, max_ns),
                ),
            r == old(self).entries().len() - final(self).entries().len(),
    {
        let mut ages: Vec<u128> = Vec::new();
        let mut i: usize = 0;
        while i < self.neighbors.len()
            invariant
                i <= self.neighbors@.len(),
                ages@.len() == i,
            decreases self.neighbors@.len() - i,
        {
            let age = self.neighbors[i].age();
            ages.push(duration_as_nanos(&age));
            i = i + 1;
        }
        let max_ns = duration_as_nanos(&max_age);
        self.remove_older_than(ages.as_slice(), max_ns)
    }

    /// Brings the table in line with a snapshot of the system's neighbor
    /// cache: each entry is inserted in turn, then every entry the
    /// snapshot does not hold is dropped. An entry on interface 0 stops the
    /// refresh with an error, the ones before it inserted.
    pub fn refresh_from(&mut self, fetched: Vec<NeighborInfo>) -> (r: Result<(), NeighborTableError>)
        ensures
            r is Ok ==> (forall|j: int|
                0 <= j < fetched@.len() ==> (#[trigger] fetched@[j]).key.interface_index != 0),
            (forall|j: int|
                0 <= j < fetched@.len() ==> (#[trigger] fetched@[j]).key.interface_index != 0) ==> r is Ok
                && {
                let u = upsert_all(old(self).entries(), fetched@);
                final(self).entries() == kept(u, reported(u, fetched@))
            },
            forall|p: int|
                first_unattached(fetched@, p) ==> r == Err::<(), NeighborTableError>(
                    NeighborTableError::InvalidInterface,
                ) && final(self).entries() == upsert_all(old(self).entries(), fetched@.take(p)),
    {
        let ghost f = fetched@;
        let n = fetched.len();
        let mut keys: Vec<NeighborKey> = Vec::new();
        let mut i: usize = 0;
        for c in it: fetched.into_iter()
            invariant
                it.seq() == f,
                f.len() == n,
                i == it.index(),
                keys@.len() == i,
                forall|j: int| 0 <= j < i ==> keys@[j] == f[j].key,
                forall|j: int| 0 <= j < i ==> (#[trigger] f[j]).key.interface_index != 0,
                self.entries() == upsert_all(old(self).entries(), f.take(i as int)),
        {
            proof {
                assert(i < f.len());
                assert(f.take(i + 1).drop_last() =~= f.take(i as int));
                assert(f.take(i + 1).last() == c);
            }
            let key = c.key;
            if c.key.interface_index == 0 {
                proof {
                    assert(first_unattached(f, i as int));
                    assert forall|p: int| first_unattached(f, p) implies p == i by {
                        if p < i {
                            assert(f[p].key.interface_index != 0);
                        } else if p > i {
                            assert(f[i as int].key.interface_index != 0);
                        }
                    }
                }
                return Err(NeighborTableError::InvalidInterface);
            }
            let _ = self.insert(c);
            keys.push(key);
            i = i + 1;
        }
        proof {
            assert(f.take(f.len() as int) =~= f);
        }
        let ghost u = self.entries();
        let mut keep: Vec<bool> = Vec::new();
        let mut j: usize = 0;
        while j < self.neighbors.len()
            invariant
                j <= self.neighbors@.len(),
                self.neighbors@ == u,
                keys@.len() == f.len(),
                forall|m: int| 0 <= m < f.len() ==> keys@[m] == f[m].key,
                keep@.len() == j,
                forall|m: int| 0 <= m < j ==> keep@[m] == reported(u, f)[m],
            decreases self.neighbors@.len() - j,
        {
            let key = self.neighbors[j].key;
            let mut found = false;
            let mut m: usize = 0;
            while m < keys.len()
                invariant
                    m <= keys@.len(),
                    found == exists|q: int| 0 <= q < m && keys@[q] == key,
                decreases keys@.len() - m,
            {
                if keys[m] == key {
                    found = true;
                }
                m = m + 1;
            }
            proof {
                if found {
                    let q = choose|q: int| 0 <= q < keys@.len() && keys@[q] == key;
                    assert(f[q].key == u[j as int].key);
                }
                if reported(u, f)[j as int] {
                    let q = choose|q: int| 0 <= q < f.len() && (#[trigger] f[q]).key == u[j as int].key;
                    assert(keys@[q] == key);
                }
            }
            keep.push(found);
            j = j + 1;
        }
        proof {
            assert(keep@ =~= reported(u, f));
            assert forall|p: int| first_unattached(f, p) implies false by {
                assert(f[p].key.interface_index != 0);
            }
        }
        self.retain_marked(keep.as_slice());
        Ok(())
    }

    pub fn all(&self) -> (r: &[NeighborInfo])
        ensures
            r@ == self.entries(),
    {
        self.neighbors.as_slice()
    }

    pub fn clear(&mut self)
        ensures
            final(self).entries() == Seq::<NeighborInfo>::empty(),
    {
        self.neighbors = Vec::new();
    }

    pub fn len(&self) -> (r: usize)
        ensures
            r == self.entries().len(),
    {
        self.neighbors.len()
    }

    pub fn is_empty(&self) -> (r: bool)
        ensures
            r == (self.entries().len() == 0),
    {
        self.neighbors.len() == 0
    }
}

impl Default for NeighborTable {
    fn default() -> (r: Self)
        ensures
            r.entries() == Seq::<NeighborInfo>::empty(),
    {
        Self::new()
    }
}

proof fn lemma_first_neighbor_unique(s: Seq<NeighborInfo>, k: NeighborKey, i: int)
    requires
        is_first_neighbor(s, k, i),
    ensures
        has_neighbor(s, k),
        neighbor_slot(s, k) == i,
{
    let j = neighbor_slot(s, k);
    assert(is_first_neighbor(s, k, j));
    if j < i {
        assert(s[j].key != k);
    } else if i < j {
        assert(s[i].key != k);
    }
}

/// Some entry of `s` at or before `j` is the first of its key.
proof fn lemma_key_present(s: Seq<NeighborInfo>, k: NeighborKey, j: int)
    requires
        0 <= j < s.len(),
        s[j].key == k,
    ensures
        has_neighbor(s, k),
    decreases j,
{
    if exists|m: int| 0 <= m < j && (#[trigger] s[m]).key == k {
        let m = choose|m: int| 0 <= m < j && (#[trigger] s[m]).key == k;
        lemma_key_present(s, k, m);
    } else {
        assert(is_first_neighbor(s, k, j));
    }
}

/// After an entry is inserted, looking up its key finds that very entry,
/// and every other key finds what it found before.
pub proof fn lemma_upsert_then_get(s: Seq<NeighborInfo>, x: NeighborInfo, other: NeighborKey)
    requires
        other != x.key,
    ensures
        has_neighbor(upsert(s, x), x.key),
        upsert(s, x)[neighbor_slot(upsert(s, x), x.key)] == x,
        has_neighbor(upsert(s, x), other) == has_neighbor(s, other),
        has_neighbor(s, other) ==> upsert(s, x)[neighbor_slot(upsert(s, x), other)] == s[neighbor_slot(s, other)],
{
    let t = upsert(s, x);
    let i = if has_neighbor(s, x.key) {
        neighbor_slot(s, x.key)
    } else {
        s.len() as int
    };
    if has_neighbor(s, x.key) {
        assert(is_first_neighbor(s, x.key, i));
    } else {
        assert forall|j: int| 0 <= j < s.len() implies (#[trigger] s[j]).key != x.key by {
            if s[j].key == x.key {
                lemma_key_present(s, x.key, j);
            }
        }
    }
    assert(is_first_neighbor(t, x.key, i));
    lemma_first_neighbor_unique(t, x.key, i);
    if has_neighbor(s, other) {
        let k = neighbor_slot(s, other);
        assert(is_first_neighbor(s, other, k));
        assert(is_first_neighbor(t, other, k));
        lemma_first_neighbor_unique(t, other, k);
    }
    if has_neighbor(t, other) {
        let k = neighbor_slot(t, other);
        assert(is_first_neighbor(t, other, k));
        assert(k != i);
        assert(k < s.len());
        assert(s[k] == t[k]);
        assert forall|j: int| 0 <= j < k implies (#[trigger] s[j]).key != other by {
            if j != i {
                assert(s[j] == t[j]);
            }
        }
        assert(is_first_neighbor(s, other, k));
    }
}

/// Every key of `f` is held by some entry once `f` is inserted into `s`.
proof fn lemma_upsert_all_holds(s: Seq<NeighborInfo>, f: Seq<NeighborInfo>, j: int)
    requires
        0 <= j < f.len(),
    ensures
        exists|i: int| 0 <= i < upsert_all(s, f).len() && (#[trigger] upsert_all(s, f)[i]).key == f[j].key,
    decreases f.len(),
{
    let p = f.drop_last();
    let u0 = upsert_all(s, p);
    let u = upsert_all(s, f);
    assert(u == upsert(u0, f.last()));
    if j == f.len() - 1 {
        if has_neighbor(u0, f.last().key) {
            let i = neighbor_slot(u0, f.last().key);
            assert(is_first_neighbor(u0, f.last().key, i));
            assert(u[i].key == f[j].key);
        } else {
            assert(u[u0.len() as int].key == f[j].key);
        }
    } else {
        lemma_upsert_all_holds(s, p, j);
        let i = choose|i: int| 0 <= i < u0.len() && (#[trigger] u0[i]).key == p[j].key;
        if has_neighbor(u0, f.last().key) {
            let m = neighbor_slot(u0, f.last().key);
            assert(is_first_neighbor(u0, f.last().key, m));
            assert(u[i].key == f[j].key);
        } else {
            assert(u[i] == u0[i]);
        }
    }
}

/// After a refresh from `f` that succeeded, the table holds an entry of
/// key `k` exactly when `f` reported one: whatever the snapshot no longer
/// holds is gone, and nothing it holds is missing.
pub proof fn lemma_refresh_keeps_reported(s: Seq<NeighborInfo>, f: Seq<NeighborInfo>, k: NeighborKey)
    ensures
        ({
            let u = upsert_all(s, f);
            has_neighbor(kept(u, reported(u, f)), k)
        }) <==> exists|j: int| 0 <= j < f.len() && (#[trigger] f[j]).key == k,
{
    let u = upsert_all(s, f);
    let mask = reported(u, f);
    let t = kept(u, mask);
    if has_neighbor(t, k) {
        let q = neighbor_slot(t, k);
        assert(is_first_neighbor(t, k, q));
        assert(t.contains(t[q]));
        lemma_kept_members(u, mask, t[q]);
        let m = choose|m: int| 0 <= m < u.len() && mask[m] && u[m] == t[q];
        assert(mask[m]);
    }
    if exists|j: int| 0 <= j < f.len() && (#[trigger] f[j]).key == k {
        let j = choose|j: int| 0 <= j < f.len() && (#[trigger] f[j]).key == k;
        lemma_upsert_all_holds(s, f, j);
        let i = choose|i: int| 0 <= i < u.len() && (#[trigger] u[i]).key == f[j].key;
        assert(mask[i]);
        lemma_kept_members(u, mask, u[i]);
        assert(t.contains(u[i]));
        let q = choose|q: int| 0 <= q < t.len() && t[q] == u[i];
        lemma_key_present(t, k, q);
    }
}

} // verus!
