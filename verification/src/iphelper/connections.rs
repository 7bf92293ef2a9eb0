//! The connection table: TCP and UDP endpoints with their state and owning
//! process, as IP Helper reports them.
use vstd::prelude::*;

use std::time::{Duration, SystemTime};

use crate::clock::{
    age_marks, duration_as_nanos, duration_from_secs, system_duration_since, system_now, within_age,
};
use crate::iphelper::retain::{kept, lemma_kept_len, lemma_kept_members, retain_marked};
use crate::net::IpAddress;
use crate::npcap::device::opt_view;
use crate::text::owned;

verus! {

#[derive(Debug, Clone, Copy, PartialEq, Eq, Structural, Hash)]
pub enum ConnectionProtocol {
    Tcp,
    Udp,
    Tcp6,
    Udp6,
    Unknown,
}

/// The TCP state of a connection (`MIB_TCP_STATE`).
#[derive(Debug, Clone, Copy, PartialEq, Eq, Structural)]
pub enum ConnectionState {
    Closed,
    Listen,
    SynSent,
    SynReceived,
    Established,
    FinWait1,
    FinWait2,
    CloseWait,
    Closing,
    LastAck,
    TimeWait,
    DeleteTcb,
    Unknown,
}

impl ConnectionState {
    /// Listening or at any step between opening and the final wait.
    pub open spec fn spec_is_active(self) -> bool {
        !(self is Closed || self is DeleteTcb || self is Unknown)
    }

    pub fn is_active(self) -> (r: bool)
        ensures
            r == self.spec_is_active(),
    {
        matches!(
            self,
            ConnectionState::Listen | ConnectionState::SynSent | ConnectionState::SynReceived
                | ConnectionState::Established | ConnectionState::FinWait1 | ConnectionState::FinWait2
                | ConnectionState::CloseWait | ConnectionState::Closing | ConnectionState::LastAck
                | ConnectionState::TimeWait
        )
    }

    pub fn is_terminal(self) -> (r: bool)
        ensures
            r == (self is Closed || self is DeleteTcb),
    {
        matches!(self, ConnectionState::Closed | ConnectionState::DeleteTcb)
    }
}

/// The state a `MIB_TCP_STATE` value stands for: the states are numbered
/// from 1 in the order `Closed`, `Listen`, `SynSent`, `SynReceived`,
/// `Established`, `FinWait1`, `FinWait2`, `CloseWait`, `Closing`,
/// `LastAck`, `TimeWait`, `DeleteTcb`.
pub open spec fn spec_tcp_state(state: u32) -> ConnectionState {
    if state == 1 {
        ConnectionState::Closed
    } else if state == 2 {
        ConnectionState::Listen
    } else if state == 3 {
        ConnectionState::SynSent
    } else if state == 4 {
        ConnectionState::SynReceived
    } else if state == 5 {
        ConnectionState::Established
    } else if state == 6 {
        ConnectionState::FinWait1
    } else if state == 7 {
        ConnectionState::FinWait2
    } else if state == 8 {
        ConnectionState::CloseWait
    } else if state == 9 {
        ConnectionState::Closing
    } else if state == 10 {
        ConnectionState::LastAck
    } else if state == 11 {
        ConnectionState::TimeWait
    } else if state == 12 {
        ConnectionState::DeleteTcb
    } else {
        ConnectionState::Unknown
    }
}

pub fn map_tcp_state(state: u32) -> (r: ConnectionState)
    ensures
        r == spec_tcp_state(state),
{
    match state {
        1 => ConnectionState::Closed,
        2 => ConnectionState::Listen,
        3 => ConnectionState::SynSent,
        4 => ConnectionState::SynReceived,
        5 => ConnectionState::Established,
        6 => ConnectionState::FinWait1,
        7 => ConnectionState::FinWait2,
        8 => ConnectionState::CloseWait,
        9 => ConnectionState::Closing,
        10 => ConnectionState::LastAck,
        11 => ConnectionState::TimeWait,
        12 => ConnectionState::DeleteTcb,
        _ => ConnectionState::Unknown,
    }
}

/// A connection is named by its protocol and endpoints; the remote
/// endpoint is either fully known or absent.
#[derive(Debug, Clone, Copy, PartialEq, Eq, Structural, Hash)]
pub struct ConnectionKey {
    pub protocol: ConnectionProtocol,
    pub local_address: IpAddress,
    pub local_port: u16,
    pub remote_address: Option<IpAddress>,
    pub remote_port: Option<u16>,
}

impl ConnectionKey {
    /// `None` when only one of the remote address and port is given.
    pub fn new(
        protocol: ConnectionProtocol,
        local_address: IpAddress,
        local_port: u16,
        remote_address: Option<IpAddress>,
        remote_port: Option<u16>,
    ) -> (r: Option<Self>)
        ensures
            r is Some == (remote_address is Some == remote_port is Some),
            r matches Some(k) ==> k == (ConnectionKey {
                protocol,
                local_address,
                local_port,
                remote_address,
                remote_port,
            }),
    {
        if remote_address.is_some() != remote_port.is_some() {
            return None;
        }
        Some(ConnectionKey { protocol, local_address, local_port, remote_address, remote_port })
    }
}

/// One connection, its owner and when it was first and last seen.
#[derive(Debug, PartialEq, Eq)]
pub struct ConnectionInfo {
    pub key: ConnectionKey,
    pub state: ConnectionState,
    pub process_id: Option<u32>,
    pub owner_module: Option<String>,
    pub created_at: SystemTime,
    pub updated_at: SystemTime,
}

impl Clone for ConnectionInfo {
    fn clone(&self) -> (r: Self)
        ensures
            r.key == self.key,
            r.state == self.state,
            r.process_id == self.process_id,
            opt_view(r.owner_module) == opt_view(self.owner_module),
            r.created_at == self.created_at,
            r.updated_at == self.updated_at,
    {
        ConnectionInfo {
            key: self.key,
            state: self.state,
            process_id: self.process_id,
            owner_module: match &self.owner_module {
                Some(m) => Some(owned(m.as_str())),
                None => None,
            },
            created_at: self.created_at,
            updated_at: self.updated_at,
        }
    }
}

impl ConnectionInfo {
    /// A connection first seen now, of no known process.
    pub fn new(key: ConnectionKey, state: ConnectionState) -> (r: Self)
        ensures
            r.key == key,
            r.state == state,
            r.process_id is None,
            r.owner_module is None,
            r.created_at == r.updated_at,
    {
        let now = system_now();
        ConnectionInfo {
            key,
            state,
            process_id: None,
            owner_module: None,
            created_at: now,
            updated_at: now,
        }
    }

    /// Marks the connection as seen now.
    pub fn touch(&mut self)
        ensures
            final(self).key == old(self).key,
            final(self).state == old(self).state,
            final(self).process_id == old(self).process_id,
            final(self).owner_module == old(self).owner_module,
            final(self).created_at == old(self).created_at,
    {
        self.updated_at = system_now();
    }

    /// How long ago the connection was last seen; zero when the clock went
    /// back.
    pub fn age(&self) -> Duration {
        let now = system_now();
        match system_duration_since(&now, &self.updated_at) {
            Some(d) => d,
            None => duration_from_secs(0),
        }
    }

    pub fn is_active(&self) -> (r: bool)
        ensures
            r == self.state.spec_is_active(),
    {
        self.state.is_active()
    }

    /// Records the owning process, seen now.
    pub fn set_process_id(&mut self, process_id: u32)
        ensures
            final(self).process_id == Some(process_id),
            final(self).key == old(self).key,
            final(self).state == old(self).state,
            final(self).owner_module == old(self).owner_module,
            final(self).created_at == old(self).created_at,
    {
        self.process_id = Some(process_id);
        self.touch();
    }

    /// Records the owning module, seen now.
    pub fn set_owner_module(&mut self, module: &str)
        ensures
            final(self).owner_module matches Some(m) && m@ == module@,
            final(self).key == old(self).key,
            final(self).state == old(self).state,
            final(self).process_id == old(self).process_id,
            final(self).created_at == old(self).created_at,
    {
        self.owner_module = Some(owned(module));
        self.touch();
    }
}

/// A port as read from an IP Helper row: the low sixteen bits hold it in
/// network order, which the little-endian machines Windows runs on see
/// with its two bytes swapped.
pub open spec fn row_port(raw: u32) -> u16 {
    let v = raw % 0x10000;
    ((v % 256) * 256 + v / 256) as u16
}

/// The address of a family that stands for "no address".
pub open spec fn is_unspecified(a: IpAddress) -> bool {
    match a {
        IpAddress::V4(v) => v == 0,
        IpAddress::V6(v) => v == 0,
    }
}

fn port_from_row(raw: u32) -> (r: u16)
    ensures
        r == row_port(raw),
{
    let v: u32 = raw % 0x10000;
    ((v % 256) * 256 + v / 256) as u16
}

/// A connection read from one row of a TCP or UDP table: its protocol and
/// state, the local endpoint, the remote endpoint (the unspecified address
/// and port 0 mean there is none), and the owning process. A row with
/// only one of the remote address and port gives nothing.
pub fn connection_from_row(
    protocol: ConnectionProtocol,
    state: ConnectionState,
    local_address: IpAddress,
    local_port: u32,
    remote_address: IpAddress,
    remote_port: u32,
    owning_pid: u32,
) -> (r: Option<ConnectionInfo>)
    ensures
        r is Some == (is_unspecified(remote_address) == (remote_port == 0)),
        r matches Some(c) ==> {
            &&& c.key.protocol == protocol
            &&& c.key.local_address == local_address
            &&& c.key.local_port == row_port(local_port)
            &&& c.key.remote_address == (if is_unspecified(remote_address) {
                None
            } else {
                Some(remote_address)
            })
            &&& c.key.remote_port == (if remote_port == 0 {
                None
            } else {
                Some(row_port(remote_port))
            })
            &&& c.state == state
            &&& c.process_id == Some(owning_pid)
            &&& c.owner_module is None
        },
{
    let unspecified = match remote_address {
        IpAddress::V4(v) => v == 0,
        IpAddress::V6(v) => v == 0,
    };
    let remote = if unspecified {
        None
    } else {
        Some(remote_address)
    };
    let remote_port = if remote_port == 0 {
        None
    } else {
        Some(port_from_row(remote_port))
    };
    let key = match ConnectionKey::new(protocol, local_address, port_from_row(local_port), remote, remote_port) {
        Some(k) => k,
        None => {
            return None;
        },
    };
    let mut info = ConnectionInfo::new(key, state);
    info.set_process_id(owning_pid);
    Some(info)
}

#[derive(Debug, Clone, PartialEq, Eq, Structural)]
pub enum ConnectionTableError {
    InvalidPort,
    ConnectionNotFound,
    SystemError(i32),
}

/// The error that a failed native query of this table reports: the status
/// the system call returned, read as a signed number.
pub fn fetch_failure(status: u32) -> (r: ConnectionTableError)
    ensures
        r == ConnectionTableError::SystemError(status as i32),
{
    ConnectionTableError::SystemError(status as i32)
}

/// Position `i` holds the first connection of key `k`.
pub open spec fn is_first_connection(s: Seq<ConnectionInfo>, k: ConnectionKey, i: int) -> bool {
    &&& 0 <= i < s.len()
    &&& s[i].key == k
    &&& forall|j: int| 0 <= j < i ==> (#[trigger] s[j]).key != k
}

pub open spec fn has_connection(s: Seq<ConnectionInfo>, k: ConnectionKey) -> bool {
    exists|i: int| is_first_connection(s, k, i)
}

pub open spec fn connection_slot(s: Seq<ConnectionInfo>, k: ConnectionKey) -> int {
    choose|i: int| is_first_connection(s, k, i)
}

/// Entry `after` is `c` taking the place of `before`: everything from `c`
/// but the time `before` was first seen.
pub open spec fn replaced_by(before: ConnectionInfo, c: ConnectionInfo, after: ConnectionInfo) -> bool {
    &&& after.key == c.key
    &&& after.state == c.state
    &&& after.process_id == c.process_id
    &&& after.owner_module == c.owner_module
    &&& after.updated_at == c.updated_at
    &&& after.created_at == before.created_at
}

/// The table after `c` is inserted into `s`.
pub open spec fn upsert(s: Seq<ConnectionInfo>, c: ConnectionInfo) -> Seq<ConnectionInfo> {
    if has_connection(s, c.key) {
        let i = connection_slot(s, c.key);
        s.update(i, ConnectionInfo { created_at: s[i].created_at, ..c })
    } else {
        s.push(c)
    }
}

/// The table after each of `f` is inserted into `s`, in order.
pub open spec fn upsert_all(s: Seq<ConnectionInfo>, f: Seq<ConnectionInfo>) -> Seq<ConnectionInfo>
    decreases f.len(),
{
    if f.len() == 0 {
        s
    } else {
        upsert(upsert_all(s, f.drop_last()), f.last())
    }
}

/// For each connection of `s`, whether a connection of `f` has its key.
pub open spec fn reported(s: Seq<ConnectionInfo>, f: Seq<ConnectionInfo>) -> Seq<bool> {
    Seq::new(s.len(), |i: int| exists|j: int| 0 <= j < f.len() && (#[trigger] f[j]).key == s[i].key)
}

/// The first connection of `f` with local port 0, if any.
pub open spec fn first_portless(f: Seq<ConnectionInfo>, p: int) -> bool {
    &&& 0 <= p < f.len()
    &&& f[p].key.local_port == 0
    &&& forall|j: int| 0 <= j < p ==> (#[trigger] f[j]).key.local_port != 0
}

/// The connections, in the order they were first inserted.
#[derive(Debug)]
pub struct ConnectionTable {
    connections: Vec<ConnectionInfo>,
}

impl ConnectionTable {
    pub closed spec fn entries(self) -> Seq<ConnectionInfo> {
        self.connections@
    }

    pub fn new() -> (r: Self)
        ensures
            r.entries() == Seq::<ConnectionInfo>::empty(),
    {
        ConnectionTable { connections: Vec::new() }
    }

    fn position(&self, k: &ConnectionKey) -> (r: Option<usize>)
        ensures
            r is Some == has_connection(self.entries(), *k),
            r matches Some(i) ==> is_first_connection(self.entries(), *k, i as int) && i
                == connection_slot(self.entries(), *k),
    {
        let mut i: usize = 0;
        while i < self.connections.len()
            invariant
                i <= self.connections@.len(),
                forall|j: int| 0 <= j < i ==> (#[trigger] self.connections@[j]).key != *k,
            decreases self.connections@.len() - i,
        {
            if self.connections[i].key == *k {
                proof {
                    lemma_first_connection_unique(self.connections@, *k, i as int);
                }
                return Some(i);
            }
            i = i + 1;
        }
        proof {
            if has_connection(self.connections@, *k) {
                let j = choose|j: int| is_first_connection(self.connections@, *k, j);
                assert(self.connections@[j].key != *k);
            }
        }
        None
    }

    /// Adds a connection. A connection already known keeps the time it
    /// was first seen and takes everything else from `connection`. Local
    /// port 0 is refused.
    pub fn insert(&mut self, connection: ConnectionInfo) -> (r: Result<(), ConnectionTableError>)
        ensures
            connection.key.local_port == 0 ==> r == Err::<(), ConnectionTableError>(
                ConnectionTableError::InvalidPort,
            ) && final(self).entries() == old(self).entries(),
            connection.key.local_port != 0 ==> r is Ok,
            r is Ok ==> {
                let s = old(self).entries();
                if has_connection(s, connection.key) {
                    let i = connection_slot(s, connection.key);
                    &&& final(self).entries().len() == s.len()
                    &&& forall|j: int| 0 <= j < s.len() && j != i ==> final(self).entries()[j] == s[j]
                    &&& replaced_by(s[i], connection, final(self).entries()[i])
                } else {
                    final(self).entries() == s.push(connection)
                }
            },
    {
        if connection.key.local_port == 0 {
            return Err(ConnectionTableError::InvalidPort);
        }
        match self.position(&connection.key) {
            Some(i) => {
                let created = self.connections[i].created_at;
                let mut replacement = connection;
                replacement.created_at = created;
                self.connections.set(i, replacement);
            },
            None => {
                self.connections.push(connection);
            },
        }
        Ok(())
    }

    /// The connection of key `key`.
    pub fn get(&self, key: &ConnectionKey) -> (r: Result<&ConnectionInfo, ConnectionTableError>)
        ensures
            r is Ok == has_connection(self.entries(), *key),
            r matches Err(e) ==> e == ConnectionTableError::ConnectionNotFound,
            r matches Ok(c) ==> *c == self.entries()[connection_slot(self.entries(), *key)],
    {
        match self.position(key) {
            Some(i) => Ok(&self.connections[i]),
            None => Err(ConnectionTableError::ConnectionNotFound),
        }
    }

    /// The connection of key `key`, to change in place.
    pub fn get_mut(&mut self, key: &ConnectionKey) -> (r: Result<&mut ConnectionInfo, ConnectionTableError>)
        ensures
            r is Ok == has_connection(old(self).entries(), *key),
            r matches Err(e) ==> e == ConnectionTableError::ConnectionNotFound && final(self).entries()
                == old(self).entries(),
            r is Ok ==> *r->Ok_0 == old(self).entries()[connection_slot(old(self).entries(), *key)]
                && final(self).entries() == old(self).entries().update(
                connection_slot(old(self).entries(), *key),
                *final(r->Ok_0),
            ),
    {
        match self.position(key) {
            Some(i) => Ok(&mut self.connections[i]),
            None => Err(ConnectionTableError::ConnectionNotFound),
        }
    }

    /// Gives a connection a new state, seen now.
    pub fn update_state(&mut self, key: &ConnectionKey, state: ConnectionState) -> (r: Result<
        (),
        ConnectionTableError,
    >)
        ensures
            r is Ok == has_connection(old(self).entries(), *key),
            r matches Err(e) ==> e == ConnectionTableError::ConnectionNotFound && final(self).entries()
                == old(self).entries(),
            r is Ok ==> {
                let s = old(self).entries();
                let i = connection_slot(s, *key);
                let after = final(self).entries()[i];
                &&& final(self).entries().len() == s.len()
                &&& forall|j: int| 0 <= j < s.len() && j != i ==> final(self).entries()[j] == s[j]
                &&& after.key == s[i].key && after.state == state && after.process_id
                    == s[i].process_id && after.owner_module == s[i].owner_module
                    && after.created_at == s[i].created_at
            },
    {
        let connection = self.get_mut(key)?;
        connection.state = state;
        connection.touch();
        Ok(())
    }

    /// Takes out the connection of key `key`.
    pub fn remove(&mut self, key: &ConnectionKey) -> (r: Result<ConnectionInfo, ConnectionTableError>)
        ensures
            r is Ok == has_connection(old(self).entries(), *key),
            r matches Err(e) ==> e == ConnectionTableError::ConnectionNotFound && final(self).entries()
                == old(self).entries(),
            r matches Ok(c) ==> {
                let i = connection_slot(old(self).entries(), *key);
                &&& c == old(self).entries()[i]
                &&& final(self).entries() == old(self).entries().remove(i)
            },
    {
        let i = match self.position(key) {
            Some(i) => i,
            None => {
                return Err(ConnectionTableError::ConnectionNotFound);
            },
        };
        Ok(self.connections.remove(i))
    }

    /// Keeps the connections whose mark is set, in order, and says how
    /// many went.
    pub fn retain_marked(&mut self, keep: &[bool]) -> (r: usize)
        requires
            keep@.len() == old(self).entries().len(),
        ensures
            final(self).entries() == kept(old(self).entries(), keep@),
            r == old(self).entries().len() - final(self).entries().len(),
    {
        let before = self.connections.len();
        let mut taken: Vec<ConnectionInfo> = Vec::new();
        std::mem::swap(&mut taken, &mut self.connections);
        self.connections = retain_marked(taken, keep);
        proof {
            lemma_kept_len(old(self).connections@, keep@);
        }
        before - self.connections.len()
    }

    /// Drops the connections whose age in nanoseconds, as `ages_ns` gives it
    /// position by position, is over `max_ns`, and says how many went.
    pub fn remove_older_than(&mut self, ages_ns: &[u128], max_ns: u128) -> (r: usize)
        requires
            ages_ns@.len() == old(self).entries().len(),
        ensures
            final(self).entries() == kept(old(self).entries(), within_age(ages_ns@, max_ns)),
            r == old(self).entries().len() - final(self).entries().len(),
    {
        let marks = age_marks(ages_ns, max_ns);
        self.retain_marked(marks.as_slice())
    }

    /// Drops the connections not seen within `max_age`, and says how many went.
    /// The ages are read from the clock, so which ones go depends on when
    /// this runs: they are those whose age is over `max_age`, as
    /// `remove_older_than` decides from the readings.
    pub fn remove_expired(&mut self, max_age: Duration) -> (r: usize)
        ensures
            exists|ages_ns: Seq<u128>, max_ns: u128|
                ages_ns.len() == old(self).entries().len() && final(self).entries() == kept(
                    old(self).entries(),
                    within_age(ages_ns, max_ns),
                ),
            r == old(self).entries().len() - final(self).entries().len(),
    {
        let mut ages: Vec<u128> = Vec::new();
        let mut i: usize = 0;
        while i < self.connections.len()
            invariant
                i <= self.connections@.len(),
                ages@.len() == i,
            decreases self.connections@.len() - i,
        {
            let age = self.connections[i].age();
            ages.push(duration_as_nanos(&age));
            i = i + 1;
        }
        let max_ns = duration_as_nanos(&max_age);
        self.remove_older_than(ages.as_slice(), max_ns)
    }

    /// Brings the table in line with a snapshot of the system's
    /// connections: each one is inserted in turn, then every connection
    /// the snapshot does not hold is dropped. A connection with local port
    /// 0 stops the refresh with an error, the ones before it inserted.
    pub fn refresh_from(&mut self, fetched: Vec<ConnectionInfo>) -> (r: Result<(), ConnectionTableError>)
        ensures
            r is Ok ==> (forall|j: int| 0 <= j < fetched@.len() ==> (#[trigger] fetched@[j]).key.local_port != 0),
            (forall|j: int| 0 <= j < fetched@.len() ==> (#[trigger] fetched@[j]).key.local_port != 0)
                ==> r is Ok && {
                let u = upsert_all(old(self).entries(), fetched@);
                final(self).entries() == kept(u, reported(u, fetched@))
            },
            forall|p: int|
                first_portless(fetched@, p) ==> r == Err::<(), ConnectionTableError>(
                    ConnectionTableError::InvalidPort,
                ) && final(self).entries() == upsert_all(old(self).entries(), fetched@.take(p)),
    {
        let ghost f = fetched@;
        let n = fetched.len();
        let mut keys: Vec<ConnectionKey> = Vec::new();
        let mut i: usize = 0;
        for c in it: fetched.into_iter()
            invariant
                it.seq() == f,
                f.len() == n,
                i == it.index(),
                keys@.len() == i,
                forall|j: int| 0 <= j < i ==> keys@[j] == f[j].key,
                forall|j: int| 0 <= j < i ==> (#[trigger] f[j]).key.local_port != 0,
                self.entries() == upsert_all(old(self).entries(), f.take(i as int)),
        {
            proof {
                assert(i < f.len());
                assert(f.take(i + 1).drop_last() =~= f.take(i as int));
                assert(f.take(i + 1).last() == c);
            }
            let key = c.key;
            if c.key.local_port == 0 {
                proof {
                    assert(first_portless(f, i as int));
                    assert forall|p: int| first_portless(f, p) implies p == i by {
                        if p < i {
                            assert(f[p].key.local_port != 0);
                        } else if p > i {
                            assert(f[i as int].key.local_port != 0);
                        }
                    }
                }
                return Err(ConnectionTableError::InvalidPort);
            }
            let ghost before = self.entries();
            let _ = self.insert(c);
            proof {
                let s0 = before;
                if has_connection(s0, key) {
                    let k = connection_slot(s0, key);
                    assert(self.entries() =~= upsert(s0, f[i as int]));
                }
            }
            keys.push(key);
            i = i + 1;
        }
        proof {
            assert(f.take(f.len() as int) =~= f);
        }
        let ghost u = self.entries();
        let mut keep: Vec<bool> = Vec::new();
        let mut j: usize = 0;
        while j < self.connections.len()
            invariant
                j <= self.connections@.len(),
                self.connections@ == u,
                keys@.len() == f.len(),
                forall|m: int| 0 <= m < f.len() ==> keys@[m] == f[m].key,
                keep@.len() == j,
                forall|m: int| 0 <= m < j ==> keep@[m] == reported(u, f)[m],
            decreases self.connections@.len() - j,
        {
            let key = self.connections[j].key;
            let mut found = false;
            let mut m: usize = 0;
            while m < keys.len()
                invariant
                    m <= keys@.len(),
                    found == exists|q: int| 0 <= q < m && keys@[q] == key,
                decreases keys@.len() - m,
            {
                if keys[m] == key {
                    found = true;
                }
                m = m + 1;
            }
            proof {
                if found {
                    let q = choose|q: int| 0 <= q < keys@.len() && keys@[q] == key;
                    assert(f[q].key == u[j as int].key);
                }
                if reported(u, f)[j as int] {
                    let q = choose|q: int| 0 <= q < f.len() && (#[trigger] f[q]).key == u[j as int].key;
                    assert(keys@[q] == key);
                }
            }
            keep.push(found);
            j = j + 1;
        }
        proof {
            assert(keep@ =~= reported(u, f));
            assert forall|p: int| first_portless(f, p) implies false by {
                assert(f[p].key.local_port != 0);
            }
        }
        self.retain_marked(keep.as_slice());
        Ok(())
    }

    /// The active connections, in table order.
    pub fn active(&self) -> (r: Vec<&ConnectionInfo>)
        ensures
            r@.len() == self.entries().filter(|c: ConnectionInfo| c.state.spec_is_active()).len(),
            forall|i: int|
                0 <= i < r@.len() ==> *(#[trigger] r@[i]) == self.entries().filter(
                    |c: ConnectionInfo| c.state.spec_is_active(),
                )[i],
    {
        let ghost pred = |c: ConnectionInfo| c.state.spec_is_active();
        let mut r: Vec<&ConnectionInfo> = Vec::new();
        let mut i: usize = 0;
        while i < self.connections.len()
            invariant
                i <= self.connections@.len(),
                pred == (|c: ConnectionInfo| c.state.spec_is_active()),
                r@.len() == self.connections@.take(i as int).filter(pred).len(),
                forall|k: int|
                    0 <= k < r@.len() ==> *(#[trigger] r@[k]) == self.connections@.take(
                        i as int,
                    ).filter(pred)[k],
            decreases self.connections@.len() - i,
        {
            let c = &self.connections[i];
            proof {
                let s = self.connections@;
                assert(s.take(i + 1).drop_last() =~= s.take(i as int));
                reveal(Seq::filter);
            }
            if c.is_active() {
                r.push(c);
            }
            i = i + 1;
        }
        proof {
            assert(self.connections@.take(self.connections@.len() as int) =~= self.connections@);
        }
        r
    }

    pub fn all(&self) -> (r: &[ConnectionInfo])
        ensures
            r@ == self.entries(),
    {
        self.connections.as_slice()
    }

    pub fn clear(&mut self)
        ensures
            final(self).entries() == Seq::<ConnectionInfo>::empty(),
    {
        self.connections = Vec::new();
    }

    pub fn len(&self) -> (r: usize)
        ensures
            r == self.entries().len(),
    {
        self.connections.len()
    }

    pub fn is_empty(&self) -> (r: bool)
        ensures
            r == (self.entries().len() == 0),
    {
        self.connections.len() == 0
    }
}

impl Default for ConnectionTable {
    fn default() -> (r: Self)
        ensures
            r.entries() == Seq::<ConnectionInfo>::empty(),
    {
        Self::new()
    }
}

proof fn lemma_first_connection_unique(s: Seq<ConnectionInfo>, k: ConnectionKey, i: int)
    requires
        is_first_connection(s, k, i),
    ensures
        has_connection(s, k),
        connection_slot(s, k) == i,
{
    let j = connection_slot(s, k);
    assert(is_first_connection(s, k, j));
    if j < i {
        assert(s[j].key != k);
    } else if i < j {
        assert(s[i].key != k);
    }
}

/// Some entry of `s` at or before `j` is the first of its key.
proof fn lemma_key_present(s: Seq<ConnectionInfo>, k: ConnectionKey, j: int)
    requires
        0 <= j < s.len(),
        s[j].key == k,
    ensures
        has_connection(s, k),
    decreases j,
{
    if exists|m: int| 0 <= m < j && (#[trigger] s[m]).key == k {
        let m = choose|m: int| 0 <= m < j && (#[trigger] s[m]).key == k;
        lemma_key_present(s, k, m);
    } else {
        assert(is_first_connection(s, k, j));
    }
}

/// After a connection is inserted, looking up its key finds it, first seen
/// when the connection it replaced was, and every other key finds what it
/// found before.
pub proof fn lemma_upsert_then_get(s: Seq<ConnectionInfo>, x: ConnectionInfo, other: ConnectionKey)
    requires
        other != x.key,
    ensures
        has_connection(upsert(s, x), x.key),
        replaced_by(if has_connection(s, x.key) { s[connection_slot(s, x.key)] } else { x }, x, upsert(s, x)[connection_slot(upsert(s, x), x.key)]),
        has_connection(upsert(s, x), other) == has_connection(s, other),
        has_connection(s, other) ==> upsert(s, x)[connection_slot(upsert(s, x), other)] == s[connection_slot(s, other)],
{
    let t = upsert(s, x);
    let i = if has_connection(s, x.key) {
        connection_slot(s, x.key)
    } else {
        s.len() as int
    };
    if has_connection(s, x.key) {
        assert(is_first_connection(s, x.key, i));
    } else {
        assert forall|j: int| 0 <= j < s.len() implies (#[trigger] s[j]).key != x.key by {
            if s[j].key == x.key {
                lemma_key_present(s, x.key, j);
            }
        }
    }
    assert(is_first_connection(t, x.key, i));
    lemma_first_connection_unique(t, x.key, i);
    if has_connection(s, other) {
        let k = connection_slot(s, other);
        assert(is_first_connection(s, other, k));
        assert(is_first_connection(t, other, k));
        lemma_first_connection_unique(t, other, k);
    }
    if has_connection(t, other) {
        let k = connection_slot(t, other);
        assert(is_first_connection(t, other, k));
        assert(k != i);
        assert(k < s.len());
        assert(s[k] == t[k]);
        assert forall|j: int| 0 <= j < k implies (#[trigger] s[j]).key != other by {
            if j != i {
                assert(s[j] == t[j]);
            }
        }
        assert(is_first_connection(s, other, k));
    }
}

/// Every key of `f` is held by some entry once `f` is inserted into `s`.
proof fn lemma_upsert_all_holds(s: Seq<ConnectionInfo>, f: Seq<ConnectionInfo>, j: int)
    requires
        0 <= j < f.len(),
    ensures
        exists|i: int| 0 <= i < upsert_all(s, f).len() && (#[trigger] upsert_all(s, f)[i]).key == f[j].key,
    decreases f.len(),
{
    let p = f.drop_last();
    let u0 = upsert_all(s, p);
    let u = upsert_all(s, f);
    assert(u == upsert(u0, f.last()));
    if j == f.len() - 1 {
        if has_connection(u0, f.last().key) {
            let i = connection_slot(u0, f.last().key);
            assert(is_first_connection(u0, f.last().key, i));
            assert(u[i].key == f[j].key);
        } else {
            assert(u[u0.len() as int].key == f[j].key);
        }
    } else {
        lemma_upsert_all_holds(s, p, j);
        let i = choose|i: int| 0 <= i < u0.len() && (#[trigger] u0[i]).key == p[j].key;
        if has_connection(u0, f.last().key) {
            let m = connection_slot(u0, f.last().key);
            assert(is_first_connection(u0, f.last().key, m));
            assert(u[i].key == f[j].key);
        } else {
            assert(u[i] == u0[i]);
        }
    }
}

/// After a refresh from `f` that succeeded, the table holds an entry of
/// key `k` exactly when `f` reported one: whatever the snapshot no longer
/// holds is gone, and nothing it holds is missing.
pub proof fn lemma_refresh_keeps_reported(s: Seq<ConnectionInfo>, f: Seq<ConnectionInfo>, k: ConnectionKey)
    ensures
        ({
            let u = upsert_all(s, f);
            has_connection(kept(u, reported(u, f)), k)
        }) <==> exists|j: int| 0 <= j < f.len() && (#[trigger] f[j]).key == k,
{
    let u = upsert_all(s, f);
    let mask = reported(u, f);
    let t = kept(u, mask);
    if has_connection(t, k) {
        let q = connection_slot(t, k);
        assert(is_first_connection(t, k, q));
        assert(t.contains(t[q]));
        lemma_kept_members(u, mask, t[q]);
        let m = choose|m: int| 0 <= m < u.len() && mask[m] && u[m] == t[q];
        assert(mask[m]);
    }
    if exists|j: int| 0 <= j < f.len() && (#[trigger] f[j]).key == k {
        let j = choose|j: int| 0 <= j < f.len() && (#[trigger] f[j]).key == k;
        lemma_upsert_all_holds(s, f, j);
        let i = choose|i: int| 0 <= i < u.len() && (#[trigger] u[i]).key == f[j].key;
        assert(mask[i]);
        lemma_kept_members(u, mask, u[i]);
        assert(t.contains(u[i]));
        let q = choose|q: int| 0 <= q < t.len() && t[q] == u[i];
        lemma_key_present(t, k, q);
    }
}

} // verus!
