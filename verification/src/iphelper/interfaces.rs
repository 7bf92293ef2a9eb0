//! Network interfaces as IP Helper reports them, and the table of them
//! keyed by interface index.
use vstd::prelude::*;

use crate::iphelper::routes::address_bits;
use crate::net::IpAddress;
use crate::text::{is_blank, owned, str_is_blank};

verus! {

#[derive(Debug, Clone, Copy, PartialEq, Eq, Structural)]
pub enum InterfaceType {
    Ethernet,
    Wifi,
    Loopback,
    Tunnel,
    Unknown,
}

#[derive(Debug, Clone, Copy, PartialEq, Eq, Structural)]
pub enum InterfaceOperationalState {
    Up,
    Down,
    Testing,
    Unknown,
}

/// `IfOperStatusUp`, `IfOperStatusDown` and `IfOperStatusTesting`.
pub const IF_OPER_STATUS_UP: u32 = 1;

pub const IF_OPER_STATUS_DOWN: u32 = 2;

pub const IF_OPER_STATUS_TESTING: u32 = 3;

/// The `IF_TYPE_*` values the backend tells apart.
pub const IF_TYPE_ETHERNET_CSMACD: u32 = 6;

pub const IF_TYPE_SOFTWARE_LOOPBACK: u32 = 24;

pub const IF_TYPE_IEEE80211: u32 = 71;

pub const IF_TYPE_TUNNEL: u32 = 131;

/// The operational state an `OperStatus` value stands for.
pub open spec fn spec_oper_status(status: u32) -> InterfaceOperationalState {
    if status == IF_OPER_STATUS_UP {
        InterfaceOperationalState::Up
    } else if status == IF_OPER_STATUS_DOWN {
        InterfaceOperationalState::Down
    } else if status == IF_OPER_STATUS_TESTING {
        InterfaceOperationalState::Testing
    } else {
        InterfaceOperationalState::Unknown
    }
}

pub fn map_oper_status(status: u32) -> (r: InterfaceOperationalState)
    ensures
        r == spec_oper_status(status),
{
    if status == IF_OPER_STATUS_UP {
        InterfaceOperationalState::Up
    } else if status == IF_OPER_STATUS_DOWN {
        InterfaceOperationalState::Down
    } else if status == IF_OPER_STATUS_TESTING {
        InterfaceOperationalState::Testing
    } else {
        InterfaceOperationalState::Unknown
    }
}

/// The interface type an `IfType` value stands for.
pub open spec fn spec_if_type(if_type: u32) -> InterfaceType {
    if if_type == IF_TYPE_ETHERNET_CSMACD {
        InterfaceType::Ethernet
    } else if if_type == IF_TYPE_IEEE80211 {
        InterfaceType::Wifi
    } else if if_type == IF_TYPE_SOFTWARE_LOOPBACK {
        InterfaceType::Loopback
    } else if if_type == IF_TYPE_TUNNEL {
        InterfaceType::Tunnel
    } else {
        InterfaceType::Unknown
    }
}

pub fn map_if_type(if_type: u32) -> (r: InterfaceType)
    ensures
        r == spec_if_type(if_type),
{
    if if_type == IF_TYPE_ETHERNET_CSMACD {
        InterfaceType::Ethernet
    } else if if_type == IF_TYPE_IEEE80211 {
        InterfaceType::Wifi
    } else if if_type == IF_TYPE_SOFTWARE_LOOPBACK {
        InterfaceType::Loopback
    } else if if_type == IF_TYPE_TUNNEL {
        InterfaceType::Tunnel
    } else {
        InterfaceType::Unknown
    }
}

/// An address of an interface with its on-link prefix length.
#[derive(Debug, Clone, Copy, PartialEq, Eq, Structural)]
pub struct InterfaceAddress {
    pub address: IpAddress,
    pub prefix_length: u8,
}

impl InterfaceAddress {
    /// `None` when the prefix is longer than the address.
    pub fn new(address: IpAddress, prefix_length: u8) -> (r: Option<Self>)
        ensures
            r is Some == (prefix_length <= address_bits(address)),
            r matches Some(a) ==> a.address == address && a.prefix_length == prefix_length,
    {
        let max_prefix: u8 = match address {
            IpAddress::V4(_) => 32,
            IpAddress::V6(_) => 128,
        };
        if prefix_length > max_prefix {
            return None;
        }
        Some(InterfaceAddress { address, prefix_length })
    }
}

/// One interface: its index, names, type, state and addresses.
#[derive(Debug, Clone, PartialEq, Eq)]
pub struct InterfaceInfo {
    pub index: u32,
    pub name: String,
    pub description: String,
    pub interface_type: InterfaceType,
    pub operational_state: InterfaceOperationalState,
    pub mtu: u32,
    pub mac_address: Option<[u8; 6]>,
    pub addresses: Vec<InterfaceAddress>,
}

/// Some address in `a` is of the family of `v4` (IPv4 when true).
pub open spec fn has_family(a: Seq<InterfaceAddress>, v4: bool) -> bool {
    exists|i: int| 0 <= i < a.len() && ((#[trigger] a[i]).address is V4) == v4
}

impl InterfaceInfo {
    /// An interface of unknown type and state with nothing else known;
    /// `None` on index 0 or for a blank name.
    pub fn new(index: u32, name: &str) -> (r: Option<Self>)
        ensures
            r is Some == (index != 0 && !is_blank(name@)),
            r matches Some(i) ==> {
                &&& i.index == index
                &&& i.name@ == name@
                &&& i.description@.len() == 0
                &&& i.interface_type == InterfaceType::Unknown
                &&& i.operational_state == InterfaceOperationalState::Unknown
                &&& i.mtu == 0
                &&& i.mac_address is None
                &&& i.addresses@.len() == 0
            },
    {
        if index == 0 {
            return None;
        }
        if str_is_blank(name) {
            return None;
        }
        Some(
            InterfaceInfo {
                index,
                name: owned(name),
                description: String::new(),
                interface_type: InterfaceType::Unknown,
                operational_state: InterfaceOperationalState::Unknown,
                mtu: 0,
                mac_address: None,
                addresses: Vec::new(),
            },
        )
    }

    /// Adds an address unless the interface has it already.
    pub fn add_address(&mut self, address: InterfaceAddress)
        ensures
            final(self).addresses@ == (if old(self).addresses@.contains(address) {
                old(self).addresses@
            } else {
                old(self).addresses@.push(address)
            }),
            final(self).index == old(self).index,
            final(self).name == old(self).name,
            final(self).description == old(self).description,
            final(self).interface_type == old(self).interface_type,
            final(self).operational_state == old(self).operational_state,
            final(self).mtu == old(self).mtu,
            final(self).mac_address == old(self).mac_address,
    {
        let mut i: usize = 0;
        while i < self.addresses.len()
            invariant
                i <= self.addresses@.len(),
                forall|k: int| 0 <= k < i ==> self.addresses@[k] != address,
            decreases self.addresses@.len() - i,
        {
            if self.addresses[i] == address {
                return;
            }
            i = i + 1;
        }
        self.addresses.push(address);
    }

    pub fn is_up(&self) -> (r: bool)
        ensures
            r == (self.operational_state == InterfaceOperationalState::Up),
    {
        self.operational_state == InterfaceOperationalState::Up
    }

    fn has_family_exec(&self, v4: bool) -> (r: bool)
        ensures
            r == has_family(self.addresses@, v4),
    {
        let mut i: usize = 0;
        while i < self.addresses.len()
            invariant
                i <= self.addresses@.len(),
                forall|k: int|
                    0 <= k < i ==> ((#[trigger] self.addresses@[k]).address is V4) != v4,
            decreases self.addresses@.len() - i,
        {
            if self.addresses[i].address.is_ipv4() == v4 {
                return true;
            }
            i = i + 1;
        }
        false
    }

    pub fn has_address_family_v4(&self) -> (r: bool)
        ensures
            r == has_family(self.addresses@, true),
    {
        self.has_family_exec(true)
    }

    pub fn has_address_family_v6(&self) -> (r: bool)
        ensures
            r == has_family(self.addresses@, false),
    {
        self.has_family_exec(false)
    }
}

/// The addresses listed after each of `found` whose prefix fits its
/// address is added in turn to `a`, an address already listed being
/// passed over.
pub open spec fn with_addresses(a: Seq<InterfaceAddress>, found: Seq<(IpAddress, u8)>) -> Seq<
    InterfaceAddress,
>
    decreases found.len(),
{
    if found.len() == 0 {
        a
    } else {
        let before = with_addresses(a, found.drop_last());
        let x = InterfaceAddress { address: found.last().0, prefix_length: found.last().1 };
        if x.prefix_length <= address_bits(x.address) && !before.contains(x) {
            before.push(x)
        } else {
            before
        }
    }
}

/// The name an adapter is listed under: its friendly name (`Some(None)`
/// when it is there but cannot be read, which gives "Unknown"); without
/// one, its adapter name; without either, "Unknown".
pub fn adapter_display_name(friendly_name: Option<Option<&str>>, adapter_name: Option<&str>) -> (r: String)
    ensures
        r@ == match friendly_name {
            Some(Some(n)) => n@,
            Some(None) => "Unknown"@,
            None => match adapter_name {
                Some(a) => a@,
                None => "Unknown"@,
            },
        },
{
    match friendly_name {
        Some(Some(n)) => owned(n),
        Some(None) => owned("Unknown"),
        None => match adapter_name {
            Some(a) => owned(a),
            None => owned("Unknown"),
        },
    }
}

/// The link-layer address of an adapter whose physical address holds at
/// least six bytes: its first six.
pub fn mac_from_physical(physical: &[u8; 8], length: u32) -> (r: Option<[u8; 6]>)
    ensures
        length < 6 ==> r is None,
        length >= 6 ==> (r matches Some(m) && m@ == physical@.subrange(0, 6)),
{
    if length < 6 {
        return None;
    }
    let m: [u8; 6] = [physical[0], physical[1], physical[2], physical[3], physical[4], physical[5]];
    proof {
        assert(m@ =~= physical@.subrange(0, 6));
    }
    Some(m)
}

/// The interface one adapter entry describes: its index, name and
/// description, MTU, the state and type its codes stand for, its
/// link-layer address, and each of its unicast addresses whose prefix
/// fits. `None` on index 0 or for a blank name.
pub fn interface_from_adapter(
    index: u32,
    name: &str,
    description: &str,
    mtu: u32,
    oper_status: u32,
    if_type: u32,
    mac_address: Option<[u8; 6]>,
    addresses: &[(IpAddress, u8)],
) -> (r: Option<InterfaceInfo>)
    ensures
        r is Some == (index != 0 && !is_blank(name@)),
        r matches Some(i) ==> {
            &&& i.index == index
            &&& i.name@ == name@
            &&& i.description@ == description@
            &&& i.mtu == mtu
            &&& i.operational_state == spec_oper_status(oper_status)
            &&& i.interface_type == spec_if_type(if_type)
            &&& i.mac_address == mac_address
            &&& i.addresses@ == with_addresses(Seq::empty(), addresses@)
        },
{
    let mut info = match InterfaceInfo::new(index, name) {
        Some(i) => i,
        None => {
            return None;
        },
    };
    info.description = owned(description);
    info.mtu = mtu;
    info.operational_state = map_oper_status(oper_status);
    info.interface_type = map_if_type(if_type);
    info.mac_address = mac_address;
    let mut k: usize = 0;
    while k < addresses.len()
        invariant
            k <= addresses@.len(),
            info.index == index,
            info.name@ == name@,
            info.description@ == description@,
            info.mtu == mtu,
            info.operational_state == spec_oper_status(oper_status),
            info.interface_type == spec_if_type(if_type),
            info.mac_address == mac_address,
            info.addresses@ == with_addresses(Seq::empty(), addresses@.take(k as int)),
        decreases addresses@.len() - k,
    {
        let (address, prefix_length) = addresses[k];
        proof {
            assert(addresses@.take(k + 1).drop_last() =~= addresses@.take(k as int));
            assert(addresses@.take(k + 1).last() == addresses@[k as int]);
        }
        match InterfaceAddress::new(address, prefix_length) {
            Some(a) => info.add_address(a),
            None => {},
        }
        k = k + 1;
    }
    proof {
        assert(addresses@.take(addresses@.len() as int) =~= addresses@);
    }
    Some(info)
}

#[derive(Debug, Clone, PartialEq, Eq, Structural)]
pub enum InterfaceQueryError {
    InvalidInterfaceIndex,
    InterfaceNotFound,
    SystemError(i32),
}

/// The error that a failed native query of this table reports: the status
/// the system call returned, read as a signed number.
pub fn fetch_failure(status: u32) -> (r: InterfaceQueryError)
    ensures
        r == InterfaceQueryError::SystemError(status as i32),
{
    InterfaceQueryError::SystemError(status as i32)
}

/// Position `i` holds the first interface of `index` in `s`.
pub open spec fn is_first_interface(s: Seq<InterfaceInfo>, index: u32, i: int) -> bool {
    &&& 0 <= i < s.len()
    &&& s[i].index == index
    &&& forall|j: int| 0 <= j < i ==> (#[trigger] s[j]).index != index
}

pub open spec fn has_interface(s: Seq<InterfaceInfo>, index: u32) -> bool {
    exists|i: int| is_first_interface(s, index, i)
}

pub open spec fn interface_slot(s: Seq<InterfaceInfo>, index: u32) -> int {
    choose|i: int| is_first_interface(s, index, i)
}

/// The table after `x` is inserted into `s`.
pub open spec fn put(s: Seq<InterfaceInfo>, x: InterfaceInfo) -> Seq<InterfaceInfo> {
    if has_interface(s, x.index) {
        s.update(interface_slot(s, x.index), x)
    } else {
        s.push(x)
    }
}

/// The table after each of `f` is inserted into `s`, in order.
pub open spec fn put_all(s: Seq<InterfaceInfo>, f: Seq<InterfaceInfo>) -> Seq<InterfaceInfo>
    decreases f.len(),
{
    if f.len() == 0 {
        s
    } else {
        put(put_all(s, f.drop_last()), f.last())
    }
}

/// Position `p` holds the first interface of `f` with index 0.
pub open spec fn first_unindexed(f: Seq<InterfaceInfo>, p: int) -> bool {
    &&& 0 <= p < f.len()
    &&& f[p].index == 0
    &&& forall|j: int| 0 <= j < p ==> (#[trigger] f[j]).index != 0
}

/// The interfaces, in the order they were first inserted.
#[derive(Debug)]
pub struct InterfaceTable {
    interfaces: Vec<InterfaceInfo>,
}

impl InterfaceTable {
    pub closed spec fn entries(self) -> Seq<InterfaceInfo> {
        self.interfaces@
    }

    pub fn new() -> (r: Self)
        ensures
            r.entries() == Seq::<InterfaceInfo>::empty(),
    {
        InterfaceTable { interfaces: Vec::new() }
    }

    fn position(&self, index: u32) -> (r: Option<usize>)
        ensures
            r is Some == has_interface(self.entries(), index),
            r matches Some(i) ==> is_first_interface(self.entries(), index, i as int),
    {
        let mut i: usize = 0;
        while i < self.interfaces.len()
            invariant
                i <= self.interfaces@.len(),
                forall|j: int| 0 <= j < i ==> (#[trigger] self.interfaces@[j]).index != index,
            decreases self.interfaces@.len() - i,
        {
            if self.interfaces[i].index == index {
                assert(is_first_interface(self.interfaces@, index, i as int));
                return Some(i);
            }
            i = i + 1;
        }
        proof {
            if has_interface(self.interfaces@, index) {
                let k = choose|k: int| is_first_interface(self.interfaces@, index, k);
                assert(self.interfaces@[k].index != index);
            }
        }
        None
    }

    /// Adds an interface, replacing the interface of the same index;
    /// index 0 is refused.
    pub fn insert(&mut self, interface: InterfaceInfo) -> (r: Result<(), InterfaceQueryError>)
        ensures
            interface.index == 0 ==> r == Err::<(), InterfaceQueryError>(
                InterfaceQueryError::InvalidInterfaceIndex,
            ) && final(self).entries() == old(self).entries(),
            interface.index != 0 ==> r is Ok && final(self).entries() == (if has_interface(
                old(self).entries(),
                interface.index,
            ) {
                old(self).entries().update(
                    interface_slot(old(self).entries(), interface.index),
                    interface,
                )
            } else {
                old(self).entries().push(interface)
            }),
    {
        if interface.index == 0 {
            return Err(InterfaceQueryError::InvalidInterfaceIndex);
        }
        let ghost s = self.interfaces@;
        match self.position(interface.index) {
            Some(i) => {
                proof {
                    lemma_first_interface_unique(s, interface.index, i as int);
                }
                self.interfaces.set(i, interface);
            },
            None => {
                self.interfaces.push(interface);
            },
        }
        Ok(())
    }

    /// The interface of `index`.
    pub fn get(&self, index: u32) -> (r: Result<&InterfaceInfo, InterfaceQueryError>)
        ensures
            index == 0 ==> r == Err::<&InterfaceInfo, InterfaceQueryError>(
                InterfaceQueryError::InvalidInterfaceIndex,
            ),
            index != 0 && !has_interface(self.entries(), index) ==> r == Err::<
                &InterfaceInfo,
                InterfaceQueryError,
            >(InterfaceQueryError::InterfaceNotFound),
            r is Ok == (index != 0 && has_interface(self.entries(), index)),
            r matches Ok(i) ==> *i == self.entries()[interface_slot(self.entries(), index)],
    {
        if index == 0 {
            return Err(InterfaceQueryError::InvalidInterfaceIndex);
        }
        match self.position(index) {
            Some(i) => {
                proof {
                    lemma_first_interface_unique(self.interfaces@, index, i as int);
                }
                Ok(&self.interfaces[i])
            },
            None => Err(InterfaceQueryError::InterfaceNotFound),
        }
    }

    /// Takes out the interface of `index`.
    pub fn remove(&mut self, index: u32) -> (r: Result<InterfaceInfo, InterfaceQueryError>)
        ensures
            index == 0 ==> r == Err::<InterfaceInfo, InterfaceQueryError>(
                InterfaceQueryError::InvalidInterfaceIndex,
            ),
            index != 0 && !has_interface(old(self).entries(), index) ==> r == Err::<
                InterfaceInfo,
                InterfaceQueryError,
            >(InterfaceQueryError::InterfaceNotFound),
            r is Ok == (index != 0 && has_interface(old(self).entries(), index)),
            r is Err ==> final(self).entries() == old(self).entries(),
            r matches Ok(removed) ==> {
                let i = interface_slot(old(self).entries(), index);
                &&& removed == old(self).entries()[i]
                &&& final(self).entries() == old(self).entries().remove(i)
            },
    {
        if index == 0 {
            return Err(InterfaceQueryError::InvalidInterfaceIndex);
        }
        let i = match self.position(index) {
            Some(i) => i,
            None => {
                return Err(InterfaceQueryError::InterfaceNotFound);
            },
        };
        proof {
            lemma_first_interface_unique(self.interfaces@, index, i as int);
        }
        Ok(self.interfaces.remove(i))
    }

    /// Replaces the table with a snapshot of the system's interfaces,
    /// inserted in turn. An interface of index 0 stops the refresh with an
    /// error, the ones before it inserted.
    pub fn refresh_from(&mut self, fetched: Vec<InterfaceInfo>) -> (r: Result<(), InterfaceQueryError>)
        ensures
            r is Ok ==> (forall|j: int| 0 <= j < fetched@.len() ==> (#[trigger] fetched@[j]).index != 0),
            (forall|j: int| 0 <= j < fetched@.len() ==> (#[trigger] fetched@[j]).index != 0) ==> r is Ok
                && final(self).entries() == put_all(Seq::empty(), fetched@),
            forall|p: int|
                first_unindexed(fetched@, p) ==> r == Err::<(), InterfaceQueryError>(
                    InterfaceQueryError::InvalidInterfaceIndex,
                ) && final(self).entries() == put_all(Seq::empty(), fetched@.take(p)),
    {
        self.clear();
        let ghost f = fetched@;
        let n = fetched.len();
        let mut i: usize = 0;
        for x in it: fetched.into_iter()
            invariant
                it.seq() == f,
                f.len() == n,
                i == it.index(),
                forall|j: int| 0 <= j < i ==> (#[trigger] f[j]).index != 0,
                self.entries() == put_all(Seq::empty(), f.take(i as int)),
        {
            proof {
                assert(i < f.len());
                assert(f.take(i + 1).drop_last() =~= f.take(i as int));
                assert(f.take(i + 1).last() == x);
            }
            if x.index == 0 {
                proof {
                    assert(first_unindexed(f, i as int));
                    assert forall|p: int| first_unindexed(f, p) implies p == i by {
                        if p < i {
                            assert(f[p].index != 0);
                        } else if p > i {
                            assert(f[i as int].index != 0);
                        }
                    }
                }
                return Err(InterfaceQueryError::InvalidInterfaceIndex);
            }
            let _ = self.insert(x);
            i = i + 1;
        }
        proof {
            assert(f.take(f.len() as int) =~= f);
            assert forall|p: int| first_unindexed(f, p) implies false by {
                assert(f[p].index != 0);
            }
        }
        Ok(())
    }

    pub fn all(&self) -> (r: &[InterfaceInfo])
        ensures
            r@ == self.entries(),
    {
        self.interfaces.as_slice()
    }

    pub fn clear(&mut self)
        ensures
            final(self).entries() == Seq::<InterfaceInfo>::empty(),
    {
        self.interfaces = Vec::new();
    }

    pub fn len(&self) -> (r: usize)
        ensures
            r == self.entries().len(),
    {
        self.interfaces.len()
    }

    pub fn is_empty(&self) -> (r: bool)
        ensures
            r == (self.entries().len() == 0),
    {
        self.interfaces.len() == 0
    }
}

impl Default for InterfaceTable {
    fn default() -> (r: Self)
        ensures
            r.entries() == Seq::<InterfaceInfo>::empty(),
    {
        Self::new()
    }
}

proof fn lemma_first_interface_unique(s: Seq<InterfaceInfo>, index: u32, i: int)
    requires
        is_first_interface(s, index, i),
    ensures
        has_interface(s, index),
        interface_slot(s, index) == i,
{
    let k = interface_slot(s, index);
    assert(is_first_interface(s, index, k));
    if k < i {
        assert(s[k].index != index);
    } else if i < k {
        assert(s[i].index != index);
    }
}

/// Some interface of `s` at or before `j` is the first of its index.
proof fn lemma_index_present(s: Seq<InterfaceInfo>, index: u32, j: int)
    requires
        0 <= j < s.len(),
        s[j].index == index,
    ensures
        has_interface(s, index),
    decreases j,
{
    if exists|k: int| 0 <= k < j && (#[trigger] s[k]).index == index {
        let k = choose|k: int| 0 <= k < j && (#[trigger] s[k]).index == index;
        lemma_index_present(s, index, k);
    } else {
        assert(is_first_interface(s, index, j));
    }
}

/// After an interface is inserted, looking up its index finds that very
/// interface, and every other index finds what it found before.
pub proof fn lemma_put_then_get(s: Seq<InterfaceInfo>, x: InterfaceInfo, other: u32)
    requires
        other != x.index,
    ensures
        has_interface(put(s, x), x.index),
        put(s, x)[interface_slot(put(s, x), x.index)] == x,
        has_interface(put(s, x), other) == has_interface(s, other),
        has_interface(s, other) ==> put(s, x)[interface_slot(put(s, x), other)] == s[interface_slot(
            s,
            other,
        )],
{
    let t = put(s, x);
    let i = if has_interface(s, x.index) {
        interface_slot(s, x.index)
    } else {
        s.len() as int
    };
    if has_interface(s, x.index) {
        assert(is_first_interface(s, x.index, i));
    } else {
        assert forall|j: int| 0 <= j < s.len() implies (#[trigger] s[j]).index != x.index by {
            if s[j].index == x.index {
                lemma_index_present(s, x.index, j);
            }
        }
    }
    assert(is_first_interface(t, x.index, i));
    lemma_first_interface_unique(t, x.index, i);
    if has_interface(s, other) {
        let k = interface_slot(s, other);
        assert(is_first_interface(s, other, k));
        assert(is_first_interface(t, other, k));
        lemma_first_interface_unique(t, other, k);
    }
    if has_interface(t, other) {
        let k = interface_slot(t, other);
        assert(is_first_interface(t, other, k));
        assert(k != i);
        assert(k < s.len());
        assert(s[k] == t[k]);
        assert forall|j: int| 0 <= j < k implies (#[trigger] s[j]).index != other by {
            if j != i {
                assert(s[j] == t[j]);
            }
        }
        assert(is_first_interface(s, other, k));
    }
}

} // verus!
