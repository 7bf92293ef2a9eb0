//! Network adapters as Npcap sees them, and the table of adapters whose
//! Windows interface index is known, kept in index order.
use vstd::prelude::*;

use crate::net::IpAddress;
use crate::text::{is_blank, owned, str_eq, str_is_blank};

verus! {

#[derive(Debug, Clone, Copy, PartialEq, Eq, Structural)]
pub enum AdapterType {
    Ethernet,
    Wifi,
    Loopback,
    Tunnel,
    Other,
    Unknown,
}

#[derive(Debug, Clone, Copy, PartialEq, Eq, Structural)]
pub enum AdapterState {
    Up,
    Down,
    Testing,
    Unknown,
}

/// An address assigned to an adapter, with its prefix length.
#[derive(Debug, Clone, Copy, PartialEq, Eq, Structural)]
pub struct AdapterAddress {
    pub address: IpAddress,
    pub prefix_length: u8,
}

/// The longest prefix an address of this family can have.
pub open spec fn max_prefix(address: IpAddress) -> u8 {
    match address {
        IpAddress::V4(_) => 32,
        IpAddress::V6(_) => 128,
    }
}

impl AdapterAddress {
    /// `None` when the prefix is longer than the address.
    pub fn new(address: IpAddress, prefix_length: u8) -> (r: Option<Self>)
        ensures
            r is Some == (prefix_length <= max_prefix(address)),
            r matches Some(a) ==> a.address == address && a.prefix_length == prefix_length,
    {
        let maximum: u8 = match address {
            IpAddress::V4(_) => 32,
            IpAddress::V6(_) => 128,
        };
        if prefix_length > maximum {
            return None;
        }
        Some(AdapterAddress { address, prefix_length })
    }

    pub fn is_ipv4(&self) -> (r: bool)
        ensures
            r == (self.address is V4),
    {
        self.address.is_ipv4()
    }

    pub fn is_ipv6(&self) -> (r: bool)
        ensures
            r == (self.address is V6),
    {
        self.address.is_ipv6()
    }
}

/// One adapter: its Windows interface index (0 while not yet resolved),
/// its native Npcap name and what else is known of it.
#[derive(Debug, Clone, PartialEq, Eq)]
pub struct AdapterInfo {
    pub index: u32,
    pub name: String,
    pub description: String,
    pub adapter_type: AdapterType,
    pub state: AdapterState,
    pub mac_address: Option<[u8; 6]>,
    pub mtu: u32,
    pub addresses: Vec<AdapterAddress>,
}

/// Some address of `a` is an IPv4 address.
pub open spec fn has_v4(a: Seq<AdapterAddress>) -> bool {
    exists|i: int| 0 <= i < a.len() && (#[trigger] a[i]).address is V4
}

/// Some address of `a` is an IPv6 address.
pub open spec fn has_v6(a: Seq<AdapterAddress>) -> bool {
    exists|i: int| 0 <= i < a.len() && (#[trigger] a[i]).address is V6
}

impl AdapterInfo {
    fn new_internal(index: u32, name: &str) -> (r: Option<Self>)
        ensures
            r is Some == !is_blank(name@),
            r matches Some(a) ==> a.fresh(index, name@),
    {
        if str_is_blank(name) {
            return None;
        }
        Some(
            AdapterInfo {
                index,
                name: owned(name),
                description: String::new(),
                adapter_type: AdapterType::Unknown,
                state: AdapterState::Unknown,
                mac_address: None,
                mtu: 0,
                addresses: Vec::new(),
            },
        )
    }

    /// A newly created adapter: only its index and name are known.
    pub open spec fn fresh(self, index: u32, name: Seq<char>) -> bool {
        &&& self.index == index
        &&& self.name@ == name
        &&& self.description@.len() == 0
        &&& self.adapter_type == AdapterType::Unknown
        &&& self.state == AdapterState::Unknown
        &&& self.mac_address is None
        &&& self.mtu == 0
        &&& self.addresses@.len() == 0
    }

    /// An adapter with a known interface index; `None` for index 0 or a
    /// blank name.
    pub fn new(index: u32, name: &str) -> (r: Option<Self>)
        ensures
            r is Some == (index != 0 && !is_blank(name@)),
            r matches Some(a) ==> a.fresh(index, name@),
    {
        if index == 0 {
            return None;
        }
        Self::new_internal(index, name)
    }

    /// An adapter found through Npcap whose interface index is not known
    /// yet: its index is 0, never one made up from enumeration order.
    pub fn from_npcap(name: &str) -> (r: Option<Self>)
        ensures
            r is Some == !is_blank(name@),
            r matches Some(a) ==> a.fresh(0, name@),
    {
        Self::new_internal(0, name)
    }

    pub fn has_interface_index(&self) -> (r: bool)
        ensures
            r == (self.index != 0),
    {
        self.index != 0
    }

    /// Records the interface index resolved through IP Helper; 0 is
    /// refused.
    pub fn set_interface_index(&mut self, index: u32) -> (r: bool)
        ensures
            r == (index != 0),
            final(self).index == (if index != 0 {
                index
            } else {
                old(self).index
            }),
            final(self).name == old(self).name,
            final(self).description == old(self).description,
            final(self).adapter_type == old(self).adapter_type,
            final(self).state == old(self).state,
            final(self).mac_address == old(self).mac_address,
            final(self).mtu == old(self).mtu,
            final(self).addresses == old(self).addresses,
    {
        if index == 0 {
            return false;
        }
        self.index = index;
        true
    }

    pub fn set_description(&mut self, description: &str)
        ensures
            final(self).description@ == description@,
            final(self).index == old(self).index,
            final(self).name == old(self).name,
            final(self).adapter_type == old(self).adapter_type,
            final(self).state == old(self).state,
            final(self).mac_address == old(self).mac_address,
            final(self).mtu == old(self).mtu,
            final(self).addresses == old(self).addresses,
    {
        self.description = owned(description);
    }

    pub fn set_type(&mut self, adapter_type: AdapterType)
        ensures
            final(self).adapter_type == adapter_type,
            final(self).index == old(self).index,
            final(self).name == old(self).name,
            final(self).description == old(self).description,
            final(self).state == old(self).state,
            final(self).mac_address == old(self).mac_address,
            final(self).mtu == old(self).mtu,
            final(self).addresses == old(self).addresses,
    {
        self.adapter_type = adapter_type;
    }

    pub fn set_state(&mut self, state: AdapterState)
        ensures
            final(self).state == state,
            final(self).index == old(self).index,
            final(self).name == old(self).name,
            final(self).description == old(self).description,
            final(self).adapter_type == old(self).adapter_type,
            final(self).mac_address == old(self).mac_address,
            final(self).mtu == old(self).mtu,
            final(self).addresses == old(self).addresses,
    {
        self.state = state;
    }

    pub fn set_mtu(&mut self, mtu: u32)
        ensures
            final(self).mtu == mtu,
            final(self).index == old(self).index,
            final(self).name == old(self).name,
            final(self).description == old(self).description,
            final(self).adapter_type == old(self).adapter_type,
            final(self).state == old(self).state,
            final(self).mac_address == old(self).mac_address,
            final(self).addresses == old(self).addresses,
    {
        self.mtu = mtu;
    }

    /// Adds an address unless the adapter has it already.
    pub fn add_address(&mut self, address: AdapterAddress)
        ensures
            final(self).addresses@ == (if old(self).addresses@.contains(address) {
                old(self).addresses@
            } else {
                old(self).addresses@.push(address)
            }),
            final(self).index == old(self).index,
            final(self).name == old(self).name,
            final(self).description == old(self).description,
            final(self).adapter_type == old(self).adapter_type,
            final(self).state == old(self).state,
            final(self).mac_address == old(self).mac_address,
            final(self).mtu == old(self).mtu,
    {
        let mut i: usize = 0;
        while i < self.addresses.len()
            invariant
                i <= self.addresses@.len(),
                forall|k: int| 0 <= k < i ==> self.addresses@[k] != address,
            decreases self.addresses@.len() - i,
        {
            if self.addresses[i] == address {
                return;
            }
            i = i + 1;
        }
        self.addresses.push(address);
    }

    pub fn set_mac(&mut self, mac: [u8; 6])
        ensures
            final(self).mac_address == Some(mac),
            final(self).index == old(self).index,
            final(self).name == old(self).name,
            final(self).description == old(self).description,
            final(self).adapter_type == old(self).adapter_type,
            final(self).state == old(self).state,
            final(self).mtu == old(self).mtu,
            final(self).addresses == old(self).addresses,
    {
        self.mac_address = Some(mac);
    }

    pub fn has_mac(&self) -> (r: bool)
        ensures
            r == (self.mac_address is Some),
    {
        self.mac_address.is_some()
    }

    pub fn is_up(&self) -> (r: bool)
        ensures
            r == (self.state == AdapterState::Up),
    {
        self.state == AdapterState::Up
    }

    pub fn is_down(&self) -> (r: bool)
        ensures
            r == (self.state == AdapterState::Down),
    {
        self.state == AdapterState::Down
    }

    pub fn supports_ipv4(&self) -> (r: bool)
        ensures
            r == has_v4(self.addresses@),
    {
        let mut i: usize = 0;
        while i < self.addresses.len()
            invariant
                i <= self.addresses@.len(),
                forall|k: int| 0 <= k < i ==> !((#[trigger] self.addresses@[k]).address is V4),
            decreases self.addresses@.len() - i,
        {
            if self.addresses[i].is_ipv4() {
                return true;
            }
            i = i + 1;
        }
        false
    }

    pub fn supports_ipv6(&self) -> (r: bool)
        ensures
            r == has_v6(self.addresses@),
    {
        let mut i: usize = 0;
        while i < self.addresses.len()
            invariant
                i <= self.addresses@.len(),
                forall|k: int| 0 <= k < i ==> !((#[trigger] self.addresses@[k]).address is V6),
            decreases self.addresses@.len() - i,
        {
            if self.addresses[i].is_ipv6() {
                return true;
            }
            i = i + 1;
        }
        false
    }

    pub fn address_count(&self) -> (r: usize)
        ensures
            r == self.addresses@.len(),
    {
        self.addresses.len()
    }

    pub fn is_loopback(&self) -> (r: bool)
        ensures
            r == (self.adapter_type == AdapterType::Loopback),
    {
        self.adapter_type == AdapterType::Loopback
    }

    pub fn is_wireless(&self) -> (r: bool)
        ensures
            r == (self.adapter_type == AdapterType::Wifi),
    {
        self.adapter_type == AdapterType::Wifi
    }

    pub fn is_tunnel(&self) -> (r: bool)
        ensures
            r == (self.adapter_type == AdapterType::Tunnel),
    {
        self.adapter_type == AdapterType::Tunnel
    }

    /// The native Npcap device name, the one `pcap_open_live` takes.
    pub fn npcap_name(&self) -> (r: &str)
        ensures
            r@ == self.name@,
    {
        self.name.as_str()
    }
}

#[derive(Debug, Clone, PartialEq, Eq, Structural)]
pub enum AdapterTableError {
    InvalidAdapterIndex,
    AdapterNotFound,
}

/// Indices strictly increase along `s`.
pub open spec fn sorted_by_index(s: Seq<AdapterInfo>) -> bool {
    forall|i: int, j: int| 0 <= i < j < s.len() ==> (#[trigger] s[i]).index < (#[trigger] s[j]).index
}

/// Some entry of `s` has interface `index`.
pub open spec fn has_index(s: Seq<AdapterInfo>, index: u32) -> bool {
    exists|i: int| 0 <= i < s.len() && (#[trigger] s[i]).index == index
}

/// The position of the entry of interface `index`.
pub open spec fn index_slot(s: Seq<AdapterInfo>, index: u32) -> int {
    choose|i: int| 0 <= i < s.len() && (#[trigger] s[i]).index == index
}

/// Where an adapter of interface `index` belongs in `s`: after every
/// entry of a smaller index and before the others.
pub open spec fn is_insert_point(s: Seq<AdapterInfo>, index: u32, p: int) -> bool {
    &&& 0 <= p <= s.len()
    &&& forall|k: int| 0 <= k < p ==> (#[trigger] s[k]).index < index
    &&& p < s.len() ==> s[p].index >= index
}

pub open spec fn insert_point(s: Seq<AdapterInfo>, index: u32) -> int {
    choose|p: int| is_insert_point(s, index, p)
}

/// The table after `adapter` is put into `s`: it replaces the entry of its
/// index, or goes where its index belongs.
pub open spec fn put(s: Seq<AdapterInfo>, adapter: AdapterInfo) -> Seq<AdapterInfo> {
    let p = insert_point(s, adapter.index);
    if p < s.len() && s[p].index == adapter.index {
        s.update(p, adapter)
    } else {
        s.insert(p, adapter)
    }
}

/// Which adapters a listing keeps.
#[derive(Debug, Clone, Copy, PartialEq, Eq, Structural)]
enum Listing {
    Up,
    Ipv4,
    Ipv6,
    Resolved,
}

spec fn listed(which: Listing, a: AdapterInfo) -> bool {
    match which {
        Listing::Up => a.state == AdapterState::Up,
        Listing::Ipv4 => has_v4(a.addresses@),
        Listing::Ipv6 => has_v6(a.addresses@),
        Listing::Resolved => a.index != 0,
    }
}

/// The entries of `s` that a listing keeps, in table order.
pub open spec fn refs_match(r: Seq<&AdapterInfo>, s: Seq<AdapterInfo>) -> bool {
    &&& r.len() == s.len()
    &&& forall|i: int| 0 <= i < r.len() ==> *(#[trigger] r[i]) == s[i]
}

/// The adapters whose interface index is resolved, in increasing index
/// order and one per index.
#[derive(Debug)]
pub struct AdapterTable {
    adapters: Vec<AdapterInfo>,
}

impl AdapterTable {
    #[verifier::type_invariant]
    closed spec fn inv(self) -> bool {
        &&& sorted_by_index(self.adapters@)
        &&& forall|i: int| 0 <= i < self.adapters@.len() ==> (#[trigger] self.adapters@[i]).index != 0
    }

    /// The adapters, in increasing index order.
    pub closed spec fn entries(self) -> Seq<AdapterInfo> {
        self.adapters@
    }

    pub fn new() -> (r: Self)
        ensures
            r.entries() == Seq::<AdapterInfo>::empty(),
    {
        AdapterTable { adapters: Vec::new() }
    }

    /// The first position whose index is not below `index`.
    fn lower_bound(&self, index: u32) -> (p: usize)
        ensures
            is_insert_point(self.entries(), index, p as int),
    {
        proof {
            use_type_invariant(self);
        }
        let mut i: usize = 0;
        while i < self.adapters.len() && self.adapters[i].index < index
            invariant
                i <= self.adapters@.len(),
                forall|k: int| 0 <= k < i ==> (#[trigger] self.adapters@[k]).index < index,
            decreases self.adapters@.len() - i,
        {
            i = i + 1;
        }
        i
    }

    /// Puts `adapter` in the table, replacing the adapter of the same
    /// index; index 0 is refused, since it means "not resolved".
    pub fn insert(&mut self, adapter: AdapterInfo) -> (r: Result<(), AdapterTableError>)
        ensures
            adapter.index == 0 ==> r == Err::<(), AdapterTableError>(
                AdapterTableError::InvalidAdapterIndex,
            ) && final(self).entries() == old(self).entries(),
            adapter.index != 0 ==> r is Ok && final(self).entries() == put(
                old(self).entries(),
                adapter,
            ),
            sorted_by_index(final(self).entries()),
    {
        proof {
            use_type_invariant(&*self);
        }
        if adapter.index == 0 {
            return Err(AdapterTableError::InvalidAdapterIndex);
        }
        let ghost s = self.adapters@;
        let ghost a = adapter;
        let p = self.lower_bound(adapter.index);
        proof {
            lemma_insert_point_unique(s, adapter.index, p as int, insert_point(s, adapter.index));
        }
        let mut taken = AdapterTable::new();
        std::mem::swap(self, &mut taken);
        let AdapterTable { mut adapters } = taken;
        proof {
            lemma_put_sorted(s, a);
        }
        if p < adapters.len() && adapters[p].index == adapter.index {
            adapters.set(p, adapter);
            proof {
                assert(adapters@ == put(s, a));
            }
        } else {
            adapters.insert(p, adapter);
            proof {
                assert(adapters@ == put(s, a));
                assert forall|i: int| 0 <= i < adapters@.len() implies (
                #[trigger] adapters@[i]).index != 0 by {
                    if i > p {
                        assert(adapters@[i] == s[i - 1]);
                    }
                }
            }
        }
        *self = AdapterTable { adapters };
        Ok(())
    }

    /// Where the adapter of interface `index` is, if there is one.
    fn position(&self, index: u32) -> (r: Option<usize>)
        ensures
            r is Some == has_index(self.entries(), index),
            r matches Some(i) ==> i == index_slot(self.entries(), index) && i < self.entries().len(),
    {
        proof {
            use_type_invariant(self);
        }
        let p = self.lower_bound(index);
        if p < self.adapters.len() && self.adapters[p].index == index {
            proof {
                let q = index_slot(self.adapters@, index);
                assert(self.adapters@[p as int].index == index);
                assert(q == p as int);
            }
            Some(p)
        } else {
            proof {
                if has_index(self.adapters@, index) {
                    let q = index_slot(self.adapters@, index);
                    if q < p {
                    } else {
                        assert(self.adapters@[p as int].index < self.adapters@[q].index || q == p);
                    }
                }
            }
            None
        }
    }

    /// The adapter of interface `index`.
    pub fn get(&self, index: u32) -> (r: Result<&AdapterInfo, AdapterTableError>)
        ensures
            index == 0 ==> r == Err::<&AdapterInfo, AdapterTableError>(
                AdapterTableError::InvalidAdapterIndex,
            ),
            index != 0 && !has_index(self.entries(), index) ==> r == Err::<
                &AdapterInfo,
                AdapterTableError,
            >(AdapterTableError::AdapterNotFound),
            r is Ok == (index != 0 && has_index(self.entries(), index)),
            r matches Ok(a) ==> *a == self.entries()[index_slot(self.entries(), index)],
    {
        if index == 0 {
            return Err(AdapterTableError::InvalidAdapterIndex);
        }
        match self.position(index) {
            Some(i) => Ok(&self.adapters[i]),
            None => Err(AdapterTableError::AdapterNotFound),
        }
    }

    /// Takes the adapter of interface `index` out of the table.
    pub fn remove(&mut self, index: u32) -> (r: Result<AdapterInfo, AdapterTableError>)
        ensures
            index == 0 ==> r == Err::<AdapterInfo, AdapterTableError>(
                AdapterTableError::InvalidAdapterIndex,
            ),
            index != 0 && !has_index(old(self).entries(), index) ==> r == Err::<
                AdapterInfo,
                AdapterTableError,
            >(AdapterTableError::AdapterNotFound),
            r is Ok == (index != 0 && has_index(old(self).entries(), index)),
            r is Err ==> final(self).entries() == old(self).entries(),
            r matches Ok(a) ==> {
                let i = index_slot(old(self).entries(), index);
                &&& a == old(self).entries()[i]
                &&& final(self).entries() == old(self).entries().remove(i)
            },
    {
        proof {
            use_type_invariant(&*self);
        }
        if index == 0 {
            return Err(AdapterTableError::InvalidAdapterIndex);
        }
        let i = match self.position(index) {
            Some(i) => i,
            None => {
                return Err(AdapterTableError::AdapterNotFound);
            },
        };
        let ghost s = self.adapters@;
        let mut taken = AdapterTable::new();
        std::mem::swap(self, &mut taken);
        let AdapterTable { mut adapters } = taken;
        let removed = adapters.remove(i);
        proof {
            assert forall|x: int, y: int| 0 <= x < y < adapters@.len() implies (
            #[trigger] adapters@[x]).index < (#[trigger] adapters@[y]).index by {
                if x < i && y >= i {
                    assert(adapters@[y] == s[y + 1]);
                }
                if x >= i {
                    assert(adapters@[x] == s[x + 1]);
                    assert(adapters@[y] == s[y + 1]);
                }
            }
            assert forall|x: int| 0 <= x < adapters@.len() implies (
            #[trigger] adapters@[x]).index != 0 by {
                if x >= i {
                    assert(adapters@[x] == s[x + 1]);
                }
            }
        }
        *self = AdapterTable { adapters };
        Ok(removed)
    }

    /// The adapters, in increasing index order.
    pub fn all(&self) -> (r: &[AdapterInfo])
        ensures
            r@ == self.entries(),
            sorted_by_index(r@),
    {
        proof {
            use_type_invariant(self);
        }
        self.adapters.as_slice()
    }

    pub fn clear(&mut self)
        ensures
            final(self).entries() == Seq::<AdapterInfo>::empty(),
    {
        *self = AdapterTable::new();
    }

    pub fn len(&self) -> (r: usize)
        ensures
            r == self.entries().len(),
    {
        self.adapters.len()
    }

    pub fn is_empty(&self) -> (r: bool)
        ensures
            r == (self.entries().len() == 0),
    {
        self.adapters.is_empty()
    }

    /// The first adapter whose name is `name`.
    pub fn find_by_name(&self, name: &str) -> (r: Option<&AdapterInfo>)
        ensures
            r is Some == exists|i: int|
                0 <= i < self.entries().len() && (#[trigger] self.entries()[i]).name@ == name@,
            r matches Some(a) ==> exists|i: int|
                0 <= i < self.entries().len() && self.entries()[i] == *a && a.name@ == name@
                    && forall|j: int| 0 <= j < i ==> (#[trigger] self.entries()[j]).name@ != name@,
    {
        let mut i: usize = 0;
        while i < self.adapters.len()
            invariant
                i <= self.adapters@.len(),
                forall|j: int| 0 <= j < i ==> (#[trigger] self.adapters@[j]).name@ != name@,
            decreases self.adapters@.len() - i,
        {
            if str_eq(self.adapters[i].name.as_str(), name) {
                return Some(&self.adapters[i]);
            }
            i = i + 1;
        }
        None
    }

    /// The first adapter whose native Npcap name is `name`.
    pub fn find_by_npcap_name(&self, name: &str) -> (r: Option<&AdapterInfo>)
        ensures
            r is Some == exists|i: int|
                0 <= i < self.entries().len() && (#[trigger] self.entries()[i]).name@ == name@,
            r matches Some(a) ==> exists|i: int|
                0 <= i < self.entries().len() && self.entries()[i] == *a && a.name@ == name@
                    && forall|j: int| 0 <= j < i ==> (#[trigger] self.entries()[j]).name@ != name@,
    {
        self.find_by_name(name)
    }

    fn listing(&self, which: Listing) -> (r: Vec<&AdapterInfo>)
        ensures
            refs_match(r@, self.entries().filter(|a: AdapterInfo| listed(which, a))),
    {
        let ghost keep = |a: AdapterInfo| listed(which, a);
        let mut r: Vec<&AdapterInfo> = Vec::new();
        let mut i: usize = 0;
        while i < self.adapters.len()
            invariant
                i <= self.adapters@.len(),
                keep == (|a: AdapterInfo| listed(which, a)),
                refs_match(r@, self.adapters@.subrange(0, i as int).filter(keep)),
            decreases self.adapters@.len() - i,
        {
            let a = &self.adapters[i];
            let kept = match which {
                Listing::Up => a.is_up(),
                Listing::Ipv4 => a.supports_ipv4(),
                Listing::Ipv6 => a.supports_ipv6(),
                Listing::Resolved => a.has_interface_index(),
            };
            proof {
                let s = self.adapters@;
                assert(s.subrange(0, i + 1).drop_last() =~= s.subrange(0, i as int));
                reveal(Seq::filter);
            }
            if kept {
                r.push(a);
            }
            i = i + 1;
        }
        proof {
            assert(self.adapters@.subrange(0, self.adapters@.len() as int) =~= self.adapters@);
        }
        r
    }

    /// The adapters that are up, in index order.
    pub fn find_up(&self) -> (r: Vec<&AdapterInfo>)
        ensures
            refs_match(r@, self.entries().filter(|a: AdapterInfo| a.state == AdapterState::Up)),
    {
        let r = self.listing(Listing::Up);
        proof {
            assert((|a: AdapterInfo| listed(Listing::Up, a)) =~= (|a: AdapterInfo| a.state
                == AdapterState::Up));
        }
        r
    }

    /// The adapters with an IPv4 address, in index order.
    pub fn find_ipv4(&self) -> (r: Vec<&AdapterInfo>)
        ensures
            refs_match(r@, self.entries().filter(|a: AdapterInfo| has_v4(a.addresses@))),
    {
        let r = self.listing(Listing::Ipv4);
        proof {
            assert((|a: AdapterInfo| listed(Listing::Ipv4, a)) =~= (|a: AdapterInfo| has_v4(
                a.addresses@,
            )));
        }
        r
    }

    /// The adapters with an IPv6 address, in index order.
    pub fn find_ipv6(&self) -> (r: Vec<&AdapterInfo>)
        ensures
            refs_match(r@, self.entries().filter(|a: AdapterInfo| has_v6(a.addresses@))),
    {
        let r = self.listing(Listing::Ipv6);
        proof {
            assert((|a: AdapterInfo| listed(Listing::Ipv6, a)) =~= (|a: AdapterInfo| has_v6(
                a.addresses@,
            )));
        }
        r
    }

    /// The adapters whose interface index is resolved, in index order.
    pub fn find_resolved(&self) -> (r: Vec<&AdapterInfo>)
        ensures
            refs_match(r@, self.entries().filter(|a: AdapterInfo| a.index != 0)),
    {
        let r = self.listing(Listing::Resolved);
        proof {
            assert((|a: AdapterInfo| listed(Listing::Resolved, a)) =~= (|a: AdapterInfo| a.index
                != 0));
        }
        r
    }
}

impl Default for AdapterTable {
    fn default() -> (r: Self)
        ensures
            r.entries() == Seq::<AdapterInfo>::empty(),
    {
        Self::new()
    }
}

/// After an adapter is put into a table ordered by index, looking up its
/// index finds that very adapter, and every other index still finds what
/// it found before.
pub proof fn lemma_put_then_lookup(s: Seq<AdapterInfo>, a: AdapterInfo, other: u32)
    requires
        sorted_by_index(s),
        other != a.index,
    ensures
        sorted_by_index(put(s, a)),
        has_index(put(s, a), a.index),
        put(s, a)[index_slot(put(s, a), a.index)] == a,
        has_index(put(s, a), other) == has_index(s, other),
        has_index(s, other) ==> put(s, a)[index_slot(put(s, a), other)] == s[index_slot(s, other)],
{
    let t = put(s, a);
    let p = insert_point(s, a.index);
    lemma_insert_point_exists(s, a.index);
    lemma_put_sorted(s, a);
    assert(t[p] == a);
    let q = index_slot(t, a.index);
    assert(t[q].index == a.index);
    if q != p {
        if q < p {
            assert(t[q].index < t[p].index);
        } else {
            assert(t[p].index < t[q].index);
        }
    }
    if has_index(s, other) {
        let i = index_slot(s, other);
        let j = if p < s.len() && s[p].index == a.index || i < p { i } else { i + 1 };
        assert(t[j] == s[i]);
        let k = index_slot(t, other);
        assert(t[k].index == other);
        if k != j {
            if k < j {
                assert(t[k].index < t[j].index);
            } else {
                assert(t[j].index < t[k].index);
            }
        }
    }
    if has_index(t, other) {
        let k = index_slot(t, other);
        if p < s.len() && s[p].index == a.index {
            assert(s[k].index == other);
        } else if k < p {
            assert(s[k].index == other);
        } else {
            assert(k != p);
            assert(s[k - 1].index == other);
        }
    }
}

/// Putting an adapter into a table ordered by index keeps it ordered.
pub proof fn lemma_put_sorted(s: Seq<AdapterInfo>, a: AdapterInfo)
    requires
        sorted_by_index(s),
    ensures
        sorted_by_index(put(s, a)),
{
    let p = insert_point(s, a.index);
    lemma_insert_point_exists(s, a.index);
    let t = put(s, a);
    if !(p < s.len() && s[p].index == a.index) {
        assert forall|i: int, j: int| 0 <= i < j < t.len() implies (#[trigger] t[i]).index < (
        #[trigger] t[j]).index by {
            if i < p && j > p {
                assert(t[j] == s[j - 1]);
            }
            if i > p {
                assert(t[i] == s[i - 1]);
                assert(t[j] == s[j - 1]);
            }
            if i == p && j > p {
                assert(t[j] == s[j - 1]);
            }
        }
    }
}

/// Every table ordered by index has a place for every index.
proof fn lemma_insert_point_exists(s: Seq<AdapterInfo>, index: u32)
    requires
        sorted_by_index(s),
    ensures
        is_insert_point(s, index, insert_point(s, index)),
    decreases s.len(),
{
    if s.len() == 0 {
        assert(is_insert_point(s, index, 0));
    } else if s[0].index >= index {
        assert(is_insert_point(s, index, 0));
    } else {
        let t = s.drop_first();
        assert(sorted_by_index(t)) by {
            assert forall|i: int, j: int| 0 <= i < j < t.len() implies (#[trigger] t[i]).index < (
            #[trigger] t[j]).index by {
                assert(t[i] == s[i + 1]);
                assert(t[j] == s[j + 1]);
            }
        }
        lemma_insert_point_exists(t, index);
        let p = insert_point(t, index);
        assert(is_insert_point(s, index, p + 1)) by {
            assert forall|k: int| 0 <= k < p + 1 implies (#[trigger] s[k]).index < index by {
                if k > 0 {
                    assert(s[k] == t[k - 1]);
                }
            }
            if p + 1 < s.len() {
                assert(s[p + 1] == t[p]);
            }
        }
    }
}

/// In a table ordered by index there is one place for each index.
proof fn lemma_insert_point_unique(s: Seq<AdapterInfo>, index: u32, p: int, q: int)
    requires
        sorted_by_index(s),
        is_insert_point(s, index, p),
        q == insert_point(s, index),
    ensures
        q == p,
{
    assert(is_insert_point(s, index, p));
    assert(is_insert_point(s, index, q));
    if q < p {
        assert(s[q].index < index);
    } else if p < q {
        assert(s[p].index < index);
    }
}

} // verus!
