//! The routing table: routes with their prefixes and metrics, and the
//! longest-prefix lookup of the route a destination takes.
use vstd::prelude::*;

use crate::iphelper::sockaddr::{parse_ip_prefix, parse_sockaddr_inet, spec_sockaddr_inet};
use crate::net::IpAddress;

verus! {

/// Who installed a route (`MIB_IPFORWARD_PROTO`).
#[derive(Debug, Clone, Copy, PartialEq, Eq, Structural, Hash)]
pub enum RouteProtocol {
    Other,
    Local,
    NetMgmt,
    Icmp,
    Egp,
    Ggp,
    Hello,
    Rip,
    IsIs,
    EsIs,
    CisCo,
    Ospf,
    Bgp,
    Unknown(u32),
}

impl RouteProtocol {
    pub open spec fn spec_from_u32(value: u32) -> RouteProtocol {
        if value == 1 {
            RouteProtocol::Other
        } else if value == 2 {
            RouteProtocol::Local
        } else if value == 3 {
            RouteProtocol::NetMgmt
        } else if value == 4 {
            RouteProtocol::Icmp
        } else if value == 5 {
            RouteProtocol::Egp
        } else if value == 6 {
            RouteProtocol::Ggp
        } else if value == 7 {
            RouteProtocol::Hello
        } else if value == 8 {
            RouteProtocol::Rip
        } else if value == 9 {
            RouteProtocol::IsIs
        } else if value == 10 {
            RouteProtocol::EsIs
        } else if value == 11 {
            RouteProtocol::CisCo
        } else if value == 12 {
            RouteProtocol::Ospf
        } else if value == 13 {
            RouteProtocol::Bgp
        } else {
            RouteProtocol::Unknown(value)
        }
    }

    pub fn from_u32(value: u32) -> (r: Self)
        ensures
            r == Self::spec_from_u32(value),
    {
        match value {
            1 => RouteProtocol::Other,
            2 => RouteProtocol::Local,
            3 => RouteProtocol::NetMgmt,
            4 => RouteProtocol::Icmp,
            5 => RouteProtocol::Egp,
            6 => RouteProtocol::Ggp,
            7 => RouteProtocol::Hello,
            8 => RouteProtocol::Rip,
            9 => RouteProtocol::IsIs,
            10 => RouteProtocol::EsIs,
            11 => RouteProtocol::CisCo,
            12 => RouteProtocol::Ospf,
            13 => RouteProtocol::Bgp,
            other => RouteProtocol::Unknown(other),
        }
    }
}

/// The kind of a route; unknown values read as `Other`.
#[derive(Debug, Clone, Copy, PartialEq, Eq, Structural, Hash)]
pub enum RouteType {
    Other,
    Invalid,
    Direct,
    Indirect,
}

impl RouteType {
    pub open spec fn spec_from_u32(value: u32) -> RouteType {
        if value == 2 {
            RouteType::Invalid
        } else if value == 3 {
            RouteType::Direct
        } else if value == 4 {
            RouteType::Indirect
        } else {
            RouteType::Other
        }
    }

    pub fn from_u32(value: u32) -> (r: Self)
        ensures
            r == Self::spec_from_u32(value),
    {
        match value {
            1 => RouteType::Other,
            2 => RouteType::Invalid,
            3 => RouteType::Direct,
            4 => RouteType::Indirect,
            _ => RouteType::Other,
        }
    }
}

/// The longest prefix an address of this family can have.
pub open spec fn address_bits(address: IpAddress) -> u8 {
    match address {
        IpAddress::V4(_) => 32,
        IpAddress::V6(_) => 128,
    }
}

/// The first `prefix` bits of two IPv4 addresses agree.
pub open spec fn v4_prefix_match(network: u32, target: u32, prefix: u8) -> bool {
    prefix == 0 || (network >> ((32 - prefix) as u32)) == (target >> ((32 - prefix) as u32))
}

/// The first `prefix` bits of two IPv6 addresses agree.
pub open spec fn v6_prefix_match(network: u128, target: u128, prefix: u8) -> bool {
    prefix == 0 || (network >> ((128 - prefix) as u32)) == (target >> ((128 - prefix) as u32))
}

/// Bit `k` of `x`, counting from the least significant bit.
pub open spec fn bit_of_u128(x: u128, k: u32) -> bool {
    (x >> k) & 1u128 == 1u128
}

/// Bit `k` of `x`, counting from the least significant bit.
pub open spec fn bit_of_u32(x: u32, k: u32) -> bool {
    (x >> k) & 1u32 == 1u32
}

proof fn lemma_shift_eq_bits_u128(n: u128, t: u128, s: u32, k: u32)
    requires
        s <= k < 128,
        (n >> s) == (t >> s),
    ensures
        bit_of_u128(n, k) == bit_of_u128(t, k),
{
    assert((n >> s) == (t >> s) && s <= k && k < 128 ==> ((n >> k) & 1u128) == ((t >> k) & 1u128))
        by (bit_vector);
}

proof fn lemma_shift_eq_bits_u32(n: u32, t: u32, s: u32, k: u32)
    requires
        s <= k < 32,
        (n >> s) == (t >> s),
    ensures
        bit_of_u32(n, k) == bit_of_u32(t, k),
{
    assert((n >> s) == (t >> s) && s <= k && k < 32 ==> ((n >> k) & 1u32) == ((t >> k) & 1u32))
        by (bit_vector);
}

/// One route: a destination prefix, where it leads and at what cost.
#[derive(Debug, Clone, Copy, PartialEq, Eq, Structural, Hash)]
pub struct RouteInfo {
    pub destination: IpAddress,
    pub prefix_length: u8,
    pub next_hop: Option<IpAddress>,
    pub interface_index: u32,
    pub metric: u32,
    pub route_type: RouteType,
    pub protocol: RouteProtocol,
}

impl RouteInfo {
    /// A route with a usable prefix on a known interface.
    pub open spec fn valid(self) -> bool {
        self.prefix_length <= address_bits(self.destination) && self.interface_index != 0
    }

    /// The destination lies in this route's prefix; addresses of the
    /// other family never do.
    pub open spec fn spec_matches(self, address: IpAddress) -> bool {
        match (self.destination, address) {
            (IpAddress::V4(n), IpAddress::V4(t)) => v4_prefix_match(n, t, self.prefix_length),
            (IpAddress::V6(n), IpAddress::V6(t)) => v6_prefix_match(n, t, self.prefix_length),
            _ => false,
        }
    }

    /// An indirect route of unknown protocol; `None` when the prefix is
    /// longer than the address or the interface is 0.
    pub fn new(
        destination: IpAddress,
        prefix_length: u8,
        next_hop: Option<IpAddress>,
        interface_index: u32,
        metric: u32,
    ) -> (r: Option<Self>)
        ensures
            r is Some == (prefix_length <= address_bits(destination) && interface_index != 0),
            r matches Some(route) ==> {
                &&& route.destination == destination
                &&& route.prefix_length == prefix_length
                &&& route.next_hop == next_hop
                &&& route.interface_index == interface_index
                &&& route.metric == metric
                &&& route.route_type == RouteType::Indirect
                &&& route.protocol == RouteProtocol::Unknown(0)
            },
    {
        let max_prefix: u8 = match destination {
            IpAddress::V4(_) => 32,
            IpAddress::V6(_) => 128,
        };
        if prefix_length > max_prefix || interface_index == 0 {
            return None;
        }
        Some(
            RouteInfo {
                destination,
                prefix_length,
                next_hop,
                interface_index,
                metric,
                route_type: RouteType::Indirect,
                protocol: RouteProtocol::Unknown(0),
            },
        )
    }

    /// Whether `address` lies in this route's prefix.
    pub fn matches(&self, address: IpAddress) -> (r: bool)
        requires
            self.prefix_length <= address_bits(self.destination),
        ensures
            r == self.spec_matches(address),
    {
        match (self.destination, address) {
            (IpAddress::V4(network), IpAddress::V4(target)) => {
                v4_matches(network, target, self.prefix_length)
            },
            (IpAddress::V6(network), IpAddress::V6(target)) => {
                v6_matches(network, target, self.prefix_length)
            },
            _ => false,
        }
    }
}

/// An IPv6 route matches no address that differs from its destination in
/// one of the first `prefix_length` bits (bit `k` from the least
/// significant, for `k` in `128 - prefix_length .. 128`); a /128 route
/// matches exactly its own address and a /0 route every IPv6 address; no
/// IPv4 address matches it.
pub proof fn lemma_v6_route_match(r: RouteInfo, n: u128, t: u128, k: u32, v4: u32)
    requires
        r.destination == IpAddress::V6(n),
        r.prefix_length <= 128,
    ensures
        128 - r.prefix_length <= k < 128 && bit_of_u128(n, k) != bit_of_u128(t, k) ==> !r.spec_matches(
            IpAddress::V6(t),
        ),
        r.prefix_length == 128 ==> (r.spec_matches(IpAddress::V6(t)) <==> n == t),
        r.prefix_length == 0 ==> r.spec_matches(IpAddress::V6(t)),
        !r.spec_matches(IpAddress::V4(v4)),
{
    let p = r.prefix_length;
    if p > 0 && r.spec_matches(IpAddress::V6(t)) && 128 - p <= k < 128 {
        lemma_shift_eq_bits_u128(n, t, (128 - p) as u32, k);
    }
    if p == 128 {
        assert(n >> 0u32 == n && t >> 0u32 == t) by (bit_vector);
    }
}

/// An IPv4 route matches no address that differs from its destination in
/// one of the first `prefix_length` bits (bit `k` from the least
/// significant, for `k` in `32 - prefix_length .. 32`); a /32 route
/// matches exactly its own address and a /0 route every IPv4 address; no
/// IPv6 address matches it.
pub proof fn lemma_v4_route_match(r: RouteInfo, n: u32, t: u32, k: u32, v6: u128)
    requires
        r.destination == IpAddress::V4(n),
        r.prefix_length <= 32,
    ensures
        32 - r.prefix_length <= k < 32 && bit_of_u32(n, k) != bit_of_u32(t, k) ==> !r.spec_matches(
            IpAddress::V4(t),
        ),
        r.prefix_length == 32 ==> (r.spec_matches(IpAddress::V4(t)) <==> n == t),
        r.prefix_length == 0 ==> r.spec_matches(IpAddress::V4(t)),
        !r.spec_matches(IpAddress::V6(v6)),
{
    let p = r.prefix_length;
    if p > 0 && r.spec_matches(IpAddress::V4(t)) && 32 - p <= k < 32 {
        lemma_shift_eq_bits_u32(n, t, (32 - p) as u32, k);
    }
    if p == 32 {
        assert(n >> 0u32 == n && t >> 0u32 == t) by (bit_vector);
    }
}

fn v4_matches(network: u32, target: u32, prefix_length: u8) -> (r: bool)
    requires
        prefix_length <= 32,
    ensures
        r == v4_prefix_match(network, target, prefix_length),
{
    if prefix_length == 0 {
        return true;
    }
    let shift: u32 = (32 - prefix_length) as u32;
    (network >> shift) == (target >> shift)
}

fn v6_matches(network: u128, target: u128, prefix_length: u8) -> (r: bool)
    requires
        prefix_length <= 128,
    ensures
        r == v6_prefix_match(network, target, prefix_length),
{
    if prefix_length == 0 {
        return true;
    }
    let shift: u32 = (128 - prefix_length) as u32;
    (network >> shift) == (target >> shift)
}

#[derive(Debug, Clone, PartialEq, Eq, Structural)]
pub enum RouteTableError {
    InvalidInterface,
    InvalidPrefix,
    RouteNotFound,
    SystemError(i32),
}

/// The error that a failed native query of this table reports: the status
/// the system call returned, read as a signed number.
pub fn fetch_failure(status: u32) -> (r: RouteTableError)
    ensures
        r == RouteTableError::SystemError(status as i32),
{
    RouteTableError::SystemError(status as i32)
}

/// Route `a` is preferred over route `b` or tied with it: a longer prefix,
/// or the same prefix at no higher metric.
pub open spec fn ranks_at_least(a: RouteInfo, b: RouteInfo) -> bool {
    a.prefix_length > b.prefix_length || (a.prefix_length == b.prefix_length && a.metric <= b.metric)
}

/// The route a lookup returns matches the destination; no matching route
/// has a longer prefix, and none of the same prefix length has a lower
/// metric.
pub proof fn lemma_chosen_route_is_longest_cheapest(s: Seq<RouteInfo>, a: IpAddress, i: int, j: int)
    requires
        is_chosen_route(s, a, i),
        0 <= j < s.len(),
        s[j].spec_matches(a),
    ensures
        s[i].spec_matches(a),
        s[j].prefix_length <= s[i].prefix_length,
        s[j].prefix_length == s[i].prefix_length ==> s[i].metric <= s[j].metric,
{
    assert(ranks_at_least(s[i], s[j]));
}

/// Position `i` holds the route a packet to `a` takes: it matches, no
/// matching route ranks above it, and every later matching route ranks
/// strictly below it (of tied routes, the last one wins).
pub open spec fn is_chosen_route(s: Seq<RouteInfo>, a: IpAddress, i: int) -> bool {
    &&& 0 <= i < s.len()
    &&& s[i].spec_matches(a)
    &&& forall|j: int| 0 <= j < s.len() && (#[trigger] s[j]).spec_matches(a) ==> ranks_at_least(s[i], s[j])
    &&& forall|j: int| i < j < s.len() && (#[trigger] s[j]).spec_matches(a) ==> !ranks_at_least(s[j], s[i])
}

/// Some route of `s` matches `a`.
pub open spec fn has_match(s: Seq<RouteInfo>, a: IpAddress) -> bool {
    exists|j: int| 0 <= j < s.len() && (#[trigger] s[j]).spec_matches(a)
}

/// Position `i` is the first route of `s` for this prefix on this
/// interface.
pub open spec fn is_first_route(s: Seq<RouteInfo>, d: IpAddress, p: u8, ix: u32, i: int) -> bool {
    &&& 0 <= i < s.len()
    &&& s[i].destination == d && s[i].prefix_length == p && s[i].interface_index == ix
    &&& forall|j: int|
        0 <= j < i ==> !((#[trigger] s[j]).destination == d && s[j].prefix_length == p
            && s[j].interface_index == ix)
}

pub open spec fn has_route(s: Seq<RouteInfo>, d: IpAddress, p: u8, ix: u32) -> bool {
    exists|i: int| is_first_route(s, d, p, ix, i)
}

pub open spec fn route_slot(s: Seq<RouteInfo>, d: IpAddress, p: u8, ix: u32) -> int {
    choose|i: int| is_first_route(s, d, p, ix, i)
}

/// The table after `route` is inserted into `s`.
pub open spec fn put(s: Seq<RouteInfo>, route: RouteInfo) -> Seq<RouteInfo> {
    if has_route(s, route.destination, route.prefix_length, route.interface_index) {
        s.update(route_slot(s, route.destination, route.prefix_length, route.interface_index), route)
    } else {
        s.push(route)
    }
}

/// The table after each of `f` is inserted into `s`, in order.
pub open spec fn put_all(s: Seq<RouteInfo>, f: Seq<RouteInfo>) -> Seq<RouteInfo>
    decreases f.len(),
{
    if f.len() == 0 {
        s
    } else {
        put(put_all(s, f.drop_last()), f.last())
    }
}

/// Position `p` holds the first route of `f` the table refuses.
pub open spec fn first_invalid(f: Seq<RouteInfo>, p: int) -> bool {
    &&& 0 <= p < f.len()
    &&& !f[p].valid()
    &&& forall|j: int| 0 <= j < p ==> (#[trigger] f[j]).valid()
}

/// Why the table refuses `route`.
pub open spec fn refusal(route: RouteInfo) -> RouteTableError {
    if route.interface_index == 0 {
        RouteTableError::InvalidInterface
    } else {
        RouteTableError::InvalidPrefix
    }
}

/// A route read from one `MIB_IPFORWARD_ROW2`: the destination prefix,
/// the next hop (when its family is known), the interface, the metric and
/// the protocol. A row of another family, with too long a prefix or on
/// interface 0 gives nothing.
pub fn route_from_row(
    destination: &[u8; 28],
    prefix_length: u8,
    next_hop: &[u8; 28],
    interface_index: u32,
    metric: u32,
    protocol: u32,
) -> (r: Option<RouteInfo>)
    ensures
        r is Some == (spec_sockaddr_inet(destination@) matches Some(d) && prefix_length
            <= address_bits(d) && interface_index != 0),
        r matches Some(route) ==> {
            &&& Some(route.destination) == spec_sockaddr_inet(destination@)
            &&& route.prefix_length == prefix_length
            &&& route.next_hop == spec_sockaddr_inet(next_hop@)
            &&& route.interface_index == interface_index
            &&& route.metric == metric
            &&& route.route_type == RouteType::Indirect
            &&& route.protocol == RouteProtocol::spec_from_u32(protocol)
        },
{
    let (dest, len) = match parse_ip_prefix(destination, prefix_length) {
        Some(p) => p,
        None => {
            return None;
        },
    };
    let hop = parse_sockaddr_inet(next_hop);
    match RouteInfo::new(dest, len, hop, interface_index, metric) {
        Some(mut info) => {
            info.protocol = RouteProtocol::from_u32(protocol);
            Some(info)
        },
        None => None,
    }
}

/// The routes, in the order they were first inserted.
#[derive(Debug)]
pub struct RouteTable {
    routes: Vec<RouteInfo>,
}

impl RouteTable {
    #[verifier::type_invariant]
    closed spec fn inv(self) -> bool {
        forall|i: int| 0 <= i < self.routes@.len() ==> (#[trigger] self.routes@[i]).valid()
    }

    pub closed spec fn entries(self) -> Seq<RouteInfo> {
        self.routes@
    }

    pub fn new() -> (r: Self)
        ensures
            r.entries() == Seq::<RouteInfo>::empty(),
    {
        RouteTable { routes: Vec::new() }
    }

    /// Where the route for this prefix on this interface is.
    fn position(&self, d: IpAddress, p: u8, ix: u32) -> (r: Option<usize>)
        ensures
            r is Some == has_route(self.entries(), d, p, ix),
            r matches Some(i) ==> is_first_route(self.entries(), d, p, ix, i as int),
    {
        let mut i: usize = 0;
        while i < self.routes.len()
            invariant
                i <= self.routes@.len(),
                forall|j: int|
                    0 <= j < i ==> !((#[trigger] self.routes@[j]).destination == d
                        && self.routes@[j].prefix_length == p && self.routes@[j].interface_index
                        == ix),
            decreases self.routes@.len() - i,
        {
            let r = self.routes[i];
            if r.destination == d && r.prefix_length == p && r.interface_index == ix {
                assert(is_first_route(self.routes@, d, p, ix, i as int));
                return Some(i);
            }
            i = i + 1;
        }
        proof {
            if has_route(self.routes@, d, p, ix) {
                let k = choose|k: int| is_first_route(self.routes@, d, p, ix, k);
                assert(!(self.routes@[k].destination == d && self.routes@[k].prefix_length == p
                    && self.routes@[k].interface_index == ix));
            }
        }
        None
    }

    /// Adds a route, replacing the route for the same prefix on the same
    /// interface. Interface 0 and a prefix longer than the address are
    /// refused.
    pub fn insert(&mut self, route: RouteInfo) -> (r: Result<(), RouteTableError>)
        ensures
            route.interface_index == 0 ==> r == Err::<(), RouteTableError>(
                RouteTableError::InvalidInterface,
            ),
            route.interface_index != 0 && route.prefix_length > address_bits(route.destination) ==> r
                == Err::<(), RouteTableError>(RouteTableError::InvalidPrefix),
            r is Err ==> final(self).entries() == old(self).entries(),
            r is Ok == route.valid(),
            r is Ok ==> final(self).entries() == (if has_route(
                old(self).entries(),
                route.destination,
                route.prefix_length,
                route.interface_index,
            ) {
                old(self).entries().update(
                    route_slot(
                        old(self).entries(),
                        route.destination,
                        route.prefix_length,
                        route.interface_index,
                    ),
                    route,
                )
            } else {
                old(self).entries().push(route)
            }),
    {
        proof {
            use_type_invariant(&*self);
        }
        if route.interface_index == 0 {
            return Err(RouteTableError::InvalidInterface);
        }
        let max_prefix: u8 = match route.destination {
            IpAddress::V4(_) => 32,
            IpAddress::V6(_) => 128,
        };
        if route.prefix_length > max_prefix {
            return Err(RouteTableError::InvalidPrefix);
        }
        let ghost s = self.routes@;
        let found = self.position(route.destination, route.prefix_length, route.interface_index);
        let mut taken = RouteTable::new();
        std::mem::swap(self, &mut taken);
        let RouteTable { mut routes } = taken;
        match found {
            Some(i) => {
                proof {
                    lemma_first_route_unique(
                        s,
                        route.destination,
                        route.prefix_length,
                        route.interface_index,
                        i as int,
                    );
                }
                routes.set(i, route);
            },
            None => {
                routes.push(route);
            },
        }
        proof {
            assert forall|k: int| 0 <= k < routes@.len() implies (#[trigger] routes@[k]).valid() by {
                if k < s.len() && routes@[k] != route {
                    assert(routes@[k] == s[k]);
                }
            }
        }
        *self = RouteTable { routes };
        Ok(())
    }

    /// The route a packet to `destination` takes: the longest matching
    /// prefix and, among those, the lowest metric; of routes tied on
    /// both, the one inserted last.
    pub fn lookup(&self, destination: IpAddress) -> (r: Result<&RouteInfo, RouteTableError>)
        ensures
            r is Ok == has_match(self.entries(), destination),
            r matches Err(e) ==> e == RouteTableError::RouteNotFound,
            r matches Ok(route) ==> exists|i: int|
                is_chosen_route(self.entries(), destination, i) && self.entries()[i] == *route,
    {
        proof {
            use_type_invariant(self);
        }
        let mut best: Option<usize> = None;
        let mut i: usize = 0;
        while i < self.routes.len()
            invariant
                i <= self.routes@.len(),
                forall|k: int| 0 <= k < self.routes@.len() ==> (#[trigger] self.routes@[k]).valid(),
                best is None ==> forall|j: int|
                    0 <= j < i ==> !(#[trigger] self.routes@[j]).spec_matches(destination),
                best matches Some(b) ==> {
                    &&& b < i
                    &&& self.routes@[b as int].spec_matches(destination)
                    &&& forall|j: int|
                        0 <= j < i && (#[trigger] self.routes@[j]).spec_matches(destination)
                            ==> ranks_at_least(self.routes@[b as int], self.routes@[j])
                    &&& forall|j: int|
                        b < j < i && (#[trigger] self.routes@[j]).spec_matches(destination)
                            ==> !ranks_at_least(self.routes@[j], self.routes@[b as int])
                },
            decreases self.routes@.len() - i,
        {
            let candidate = &self.routes[i];
            proof {
                assert(self.routes@[i as int].valid());
            }
            if candidate.matches(destination) {
                let take = match best {
                    None => true,
                    Some(b) => {
                        let cur = &self.routes[b];
                        candidate.prefix_length > cur.prefix_length || (candidate.prefix_length
                            == cur.prefix_length && candidate.metric <= cur.metric)
                    },
                };
                if take {
                    best = Some(i);
                }
            }
            i = i + 1;
        }
        match best {
            Some(b) => {
                let chosen = &self.routes[b];
                assert(is_chosen_route(self.entries(), destination, b as int) && self.entries()[b as int]
                    == *chosen);
                Ok(chosen)
            },
            None => Err(RouteTableError::RouteNotFound),
        }
    }

    /// Takes out the route for this prefix on this interface.
    pub fn remove(&mut self, destination: IpAddress, prefix_length: u8, interface_index: u32) -> (r:
        Result<RouteInfo, RouteTableError>)
        ensures
            r is Ok == has_route(old(self).entries(), destination, prefix_length, interface_index),
            r matches Err(e) ==> e == RouteTableError::RouteNotFound && final(self).entries()
                == old(self).entries(),
            r matches Ok(route) ==> {
                let i = route_slot(old(self).entries(), destination, prefix_length, interface_index);
                &&& route == old(self).entries()[i]
                &&& final(self).entries() == old(self).entries().remove(i)
            },
    {
        proof {
            use_type_invariant(&*self);
        }
        let ghost s = self.routes@;
        let i = match self.position(destination, prefix_length, interface_index) {
            Some(i) => i,
            None => {
                return Err(RouteTableError::RouteNotFound);
            },
        };
        proof {
            lemma_first_route_unique(s, destination, prefix_length, interface_index, i as int);
        }
        let mut taken = RouteTable::new();
        std::mem::swap(self, &mut taken);
        let RouteTable { mut routes } = taken;
        let removed = routes.remove(i);
        proof {
            assert forall|k: int| 0 <= k < routes@.len() implies (#[trigger] routes@[k]).valid() by {
                if k >= i {
                    assert(routes@[k] == s[k + 1]);
                }
            }
        }
        *self = RouteTable { routes };
        Ok(removed)
    }

    /// Replaces the table with a snapshot of the system's routes, inserted
    /// in turn. A route the table refuses stops the refresh with the
    /// refusal, the ones before it inserted.
    pub fn refresh_from(&mut self, fetched: Vec<RouteInfo>) -> (r: Result<(), RouteTableError>)
        ensures
            r is Ok ==> (forall|j: int| 0 <= j < fetched@.len() ==> (#[trigger] fetched@[j]).valid()),
            (forall|j: int| 0 <= j < fetched@.len() ==> (#[trigger] fetched@[j]).valid()) ==> r is Ok
                && final(self).entries() == put_all(Seq::empty(), fetched@),
            forall|p: int|
                first_invalid(fetched@, p) ==> r == Err::<(), RouteTableError>(refusal(fetched@[p]))
                    && final(self).entries() == put_all(Seq::empty(), fetched@.take(p)),
    {
        self.clear();
        let ghost f = fetched@;
        let n = fetched.len();
        let mut i: usize = 0;
        for x in it: fetched.into_iter()
            invariant
                it.seq() == f,
                f.len() == n,
                i == it.index(),
                forall|j: int| 0 <= j < i ==> (#[trigger] f[j]).valid(),
                self.entries() == put_all(Seq::empty(), f.take(i as int)),
        {
            proof {
                assert(i < f.len());
                assert(f.take(i + 1).drop_last() =~= f.take(i as int));
                assert(f.take(i + 1).last() == x);
            }
            let ghost xv = x;
            match self.insert(x) {
                Ok(()) => {},
                Err(e) => {
                    proof {
                        assert(first_invalid(f, i as int));
                        assert forall|p: int| first_invalid(f, p) implies p == i by {
                            if p < i {
                                assert(f[p].valid());
                            } else if p > i {
                                assert(f[i as int].valid());
                            }
                        }
                    }
                    return Err(e);
                },
            }
            i = i + 1;
        }
        proof {
            assert(f.take(f.len() as int) =~= f);
            assert forall|p: int| first_invalid(f, p) implies false by {
                assert(f[p].valid());
            }
        }
        Ok(())
    }

    pub fn all(&self) -> (r: &[RouteInfo])
        ensures
            r@ == self.entries(),
    {
        self.routes.as_slice()
    }

    pub fn clear(&mut self)
        ensures
            final(self).entries() == Seq::<RouteInfo>::empty(),
    {
        *self = RouteTable::new();
    }

    pub fn len(&self) -> (r: usize)
        ensures
            r == self.entries().len(),
    {
        self.routes.len()
    }

    pub fn is_empty(&self) -> (r: bool)
        ensures
            r == (self.entries().len() == 0),
    {
        self.routes.len() == 0
    }
}

impl Default for RouteTable {
    fn default() -> (r: Self)
        ensures
            r.entries() == Seq::<RouteInfo>::empty(),
    {
        Self::new()
    }
}

proof fn lemma_first_route_unique(s: Seq<RouteInfo>, d: IpAddress, p: u8, ix: u32, i: int)
    requires
        is_first_route(s, d, p, ix, i),
    ensures
        has_route(s, d, p, ix),
        route_slot(s, d, p, ix) == i,
{
    let k = route_slot(s, d, p, ix);
    assert(is_first_route(s, d, p, ix, k));
    if k < i {
        assert(!(s[k].destination == d && s[k].prefix_length == p && s[k].interface_index == ix));
    } else if i < k {
        assert(!(s[i].destination == d && s[i].prefix_length == p && s[i].interface_index == ix));
    }
}

/// The route a lookup chooses is unique: two positions that both hold the
/// chosen route are the same position.
pub proof fn lemma_chosen_route_unique(s: Seq<RouteInfo>, a: IpAddress, i: int, k: int)
    requires
        is_chosen_route(s, a, i),
        is_chosen_route(s, a, k),
    ensures
        i == k,
{
    if i < k {
        assert(!ranks_at_least(s[k], s[i]));
        assert(ranks_at_least(s[k], s[i]));
    } else if k < i {
        assert(!ranks_at_least(s[i], s[k]));
        assert(ranks_at_least(s[i], s[k]));
    }
}

/// The route of this prefix and interface, the same triple as `s[j]`'s,
/// has a first occurrence in `s`.
proof fn lemma_route_present(s: Seq<RouteInfo>, d: IpAddress, p: u8, ix: u32, j: int)
    requires
        0 <= j < s.len(),
        s[j].destination == d && s[j].prefix_length == p && s[j].interface_index == ix,
    ensures
        has_route(s, d, p, ix),
    decreases j,
{
    if exists|m: int|
        0 <= m < j && (#[trigger] s[m]).destination == d && s[m].prefix_length == p && s[m].interface_index
            == ix {
        let m = choose|m: int|
            0 <= m < j && (#[trigger] s[m]).destination == d && s[m].prefix_length == p
                && s[m].interface_index == ix;
        lemma_route_present(s, d, p, ix, m);
    } else {
        assert(is_first_route(s, d, p, ix, j));
    }
}

/// After a route is inserted, the route of its prefix and interface is
/// that very route, and the route of any other prefix or interface is what
/// it was before.
pub proof fn lemma_put_then_find(s: Seq<RouteInfo>, x: RouteInfo, d: IpAddress, p: u8, ix: u32)
    requires
        !(d == x.destination && p == x.prefix_length && ix == x.interface_index),
    ensures
        has_route(put(s, x), x.destination, x.prefix_length, x.interface_index),
        put(s, x)[route_slot(put(s, x), x.destination, x.prefix_length, x.interface_index)] == x,
        has_route(put(s, x), d, p, ix) == has_route(s, d, p, ix),
        has_route(s, d, p, ix) ==> put(s, x)[route_slot(put(s, x), d, p, ix)] == s[route_slot(s, d, p, ix)],
{
    let (xd, xp, xi) = (x.destination, x.prefix_length, x.interface_index);
    let t = put(s, x);
    let i = if has_route(s, xd, xp, xi) {
        route_slot(s, xd, xp, xi)
    } else {
        s.len() as int
    };
    if has_route(s, xd, xp, xi) {
        assert(is_first_route(s, xd, xp, xi, i));
    } else {
        assert forall|j: int| 0 <= j < s.len() implies !((#[trigger] s[j]).destination == xd
            && s[j].prefix_length == xp && s[j].interface_index == xi) by {
            if s[j].destination == xd && s[j].prefix_length == xp && s[j].interface_index == xi {
                lemma_route_present(s, xd, xp, xi, j);
            }
        }
    }
    assert(is_first_route(t, xd, xp, xi, i));
    lemma_first_route_unique(t, xd, xp, xi, i);
    if has_route(s, d, p, ix) {
        let k = route_slot(s, d, p, ix);
        assert(is_first_route(s, d, p, ix, k));
        assert(is_first_route(t, d, p, ix, k));
        lemma_first_route_unique(t, d, p, ix, k);
    }
    if has_route(t, d, p, ix) {
        let k = route_slot(t, d, p, ix);
        assert(is_first_route(t, d, p, ix, k));
        assert(k != i);
        assert(k < s.len());
        assert(s[k] == t[k]);
        assert forall|j: int| 0 <= j < k implies !((#[trigger] s[j]).destination == d
            && s[j].prefix_length == p && s[j].interface_index == ix) by {
            if j != i {
                assert(s[j] == t[j]);
            }
        }
        assert(is_first_route(s, d, p, ix, k));
    }
}

} // verus!
