//! The IP Helper backend: interfaces, routes, neighbors and connections as
//! Windows reports them.
pub mod routes;
pub mod interfaces;
pub mod retain;
pub mod sockaddr;
pub mod neighbors;
pub mod connections;

pub use connections::{
    ConnectionInfo, ConnectionKey, ConnectionProtocol, ConnectionState, ConnectionTable,
    ConnectionTableError,
};
pub use interfaces::{
    InterfaceAddress, InterfaceInfo, InterfaceOperationalState, InterfaceQueryError, InterfaceTable,
    InterfaceType,
};
pub use neighbors::{NeighborInfo, NeighborKey, NeighborState, NeighborTable, NeighborTableError};
pub use routes::{RouteInfo, RouteProtocol, RouteTable, RouteTableError, RouteType};

use vstd::prelude::*;

verus! {

/// Why the backend refused a request.
#[derive(Debug, Clone, Copy, PartialEq, Eq, Structural)]
pub enum IpHelperError {
    NotRunning,
    AlreadyRunning,
    InitializationFailed,
    QueryFailed,
}

/// What the system reported for each of the four tables; `None` where the
/// query for that table failed.
#[derive(Debug)]
pub struct IpHelperSnapshot {
    pub interfaces: Option<Vec<InterfaceInfo>>,
    pub routes: Option<Vec<RouteInfo>>,
    pub neighbors: Option<Vec<NeighborInfo>>,
    pub connections: Option<Vec<ConnectionInfo>>,
}

/// Whether the interface table takes this report without error.
pub open spec fn interfaces_accepted(f: Option<Vec<InterfaceInfo>>) -> bool {
    f matches Some(v) && forall|j: int| 0 <= j < v@.len() ==> (#[trigger] v@[j]).index != 0
}

/// Whether the route table takes this report without error.
pub open spec fn routes_accepted(f: Option<Vec<RouteInfo>>) -> bool {
    f matches Some(v) && forall|j: int| 0 <= j < v@.len() ==> (#[trigger] v@[j]).valid()
}

/// Whether the neighbor table takes this report without error.
pub open spec fn neighbors_accepted(f: Option<Vec<NeighborInfo>>) -> bool {
    f matches Some(v) && forall|j: int|
        0 <= j < v@.len() ==> (#[trigger] v@[j]).key.interface_index != 0
}

/// Whether the connection table takes this report without error.
pub open spec fn connections_accepted(f: Option<Vec<ConnectionInfo>>) -> bool {
    f matches Some(v) && forall|j: int| 0 <= j < v@.len() ==> (#[trigger] v@[j]).key.local_port != 0
}

/// Whether all four tables take the snapshot without error.
pub open spec fn snapshot_accepted(s: IpHelperSnapshot) -> bool {
    &&& interfaces_accepted(s.interfaces)
    &&& routes_accepted(s.routes)
    &&& neighbors_accepted(s.neighbors)
    &&& connections_accepted(s.connections)
}

/// The interface entries after the interface table took the report `f`.
pub open spec fn interfaces_after(
    before: Seq<InterfaceInfo>,
    f: Option<Vec<InterfaceInfo>>,
    after: Seq<InterfaceInfo>,
) -> bool {
    match f {
        None => after == before,
        Some(v) => {
            &&& interfaces_accepted(f) ==> after == interfaces::put_all(Seq::empty(), v@)
            &&& forall|p: int|
                interfaces::first_unindexed(v@, p) ==> after == interfaces::put_all(
                    Seq::empty(),
                    v@.take(p),
                )
        },
    }
}

/// The route entries after the route table took the report `f`.
pub open spec fn routes_after(before: Seq<RouteInfo>, f: Option<Vec<RouteInfo>>, after: Seq<RouteInfo>) -> bool {
    match f {
        None => after == before,
        Some(v) => {
            &&& routes_accepted(f) ==> after == routes::put_all(Seq::empty(), v@)
            &&& forall|p: int|
                routes::first_invalid(v@, p) ==> after == routes::put_all(Seq::empty(), v@.take(p))
        },
    }
}

/// The neighbor entries after the neighbor table took the report `f`.
pub open spec fn neighbors_after(
    before: Seq<NeighborInfo>,
    f: Option<Vec<NeighborInfo>>,
    after: Seq<NeighborInfo>,
) -> bool {
    match f {
        None => after == before,
        Some(v) => {
            &&& neighbors_accepted(f) ==> {
                let u = neighbors::upsert_all(before, v@);
                after == retain::kept(u, neighbors::reported(u, v@))
            }
            &&& forall|p: int|
                neighbors::first_unattached(v@, p) ==> after == neighbors::upsert_all(
                    before,
                    v@.take(p),
                )
        },
    }
}

/// The connection entries after the connection table took the report `f`.
pub open spec fn connections_after(
    before: Seq<ConnectionInfo>,
    f: Option<Vec<ConnectionInfo>>,
    after: Seq<ConnectionInfo>,
) -> bool {
    match f {
        None => after == before,
        Some(v) => {
            &&& connections_accepted(f) ==> {
                let u = connections::upsert_all(before, v@);
                after == retain::kept(u, connections::reported(u, v@))
            }
            &&& forall|p: int|
                connections::first_portless(v@, p) ==> after == connections::upsert_all(
                    before,
                    v@.take(p),
                )
        },
    }
}

/// The IP Helper backend: whether it runs, and its four tables.
#[derive(Debug)]
pub struct IpHelperBackend {
    running: bool,
    interfaces: InterfaceTable,
    routes: RouteTable,
    neighbors: NeighborTable,
    connections: ConnectionTable,
}

impl IpHelperBackend {
    pub closed spec fn spec_running(self) -> bool {
        self.running
    }

    pub closed spec fn interface_entries(self) -> Seq<InterfaceInfo> {
        self.interfaces.entries()
    }

    pub closed spec fn route_entries(self) -> Seq<RouteInfo> {
        self.routes.entries()
    }

    pub closed spec fn neighbor_entries(self) -> Seq<NeighborInfo> {
        self.neighbors.entries()
    }

    pub closed spec fn connection_entries(self) -> Seq<ConnectionInfo> {
        self.connections.entries()
    }

    /// The tables after the snapshot was applied to them in turn
    /// (interfaces, routes, neighbors, connections), stopping at the first
    /// table that failed; the tables after it are left as they were.
    pub open spec fn refreshed(before: Self, after: Self, s: IpHelperSnapshot) -> bool {
        &&& interfaces_after(before.interface_entries(), s.interfaces, after.interface_entries())
        &&& if interfaces_accepted(s.interfaces) {
            routes_after(before.route_entries(), s.routes, after.route_entries())
        } else {
            after.route_entries() == before.route_entries()
        }
        &&& if interfaces_accepted(s.interfaces) && routes_accepted(s.routes) {
            neighbors_after(before.neighbor_entries(), s.neighbors, after.neighbor_entries())
        } else {
            after.neighbor_entries() == before.neighbor_entries()
        }
        &&& if interfaces_accepted(s.interfaces) && routes_accepted(s.routes) && neighbors_accepted(
            s.neighbors,
        ) {
            connections_after(before.connection_entries(), s.connections, after.connection_entries())
        } else {
            after.connection_entries() == before.connection_entries()
        }
    }

    /// A stopped backend with four empty tables.
    pub fn new() -> (r: Self)
        ensures
            !r.spec_running(),
            r.interface_entries() == Seq::<InterfaceInfo>::empty(),
            r.route_entries() == Seq::<RouteInfo>::empty(),
            r.neighbor_entries() == Seq::<NeighborInfo>::empty(),
            r.connection_entries() == Seq::<ConnectionInfo>::empty(),
    {
        IpHelperBackend {
            running: false,
            interfaces: InterfaceTable::new(),
            routes: RouteTable::new(),
            neighbors: NeighborTable::new(),
            connections: ConnectionTable::new(),
        }
    }

    /// Applies the snapshot to the tables in turn; the first table that
    /// fails stops the refresh with `QueryFailed`.
    fn apply(&mut self, snapshot: IpHelperSnapshot) -> (r: Result<(), IpHelperError>)
        ensures
            final(self).running == old(self).running,
            Self::refreshed(*old(self), *final(self), snapshot),
            r is Ok <==> snapshot_accepted(snapshot),
            r is Err ==> r == Err::<(), IpHelperError>(IpHelperError::QueryFailed),
    {
        let IpHelperSnapshot { interfaces, routes, neighbors, connections } = snapshot;
        match interfaces {
            None => {
                return Err(IpHelperError::QueryFailed);
            },
            Some(v) => {
                match self.interfaces.refresh_from(v) {
                    Ok(()) => {},
                    Err(_) => {
                        return Err(IpHelperError::QueryFailed);
                    },
                }
            },
        }
        match routes {
            None => {
                return Err(IpHelperError::QueryFailed);
            },
            Some(v) => {
                match self.routes.refresh_from(v) {
                    Ok(()) => {},
                    Err(_) => {
                        return Err(IpHelperError::QueryFailed);
                    },
                }
            },
        }
        match neighbors {
            None => {
                return Err(IpHelperError::QueryFailed);
            },
            Some(v) => {
                match self.neighbors.refresh_from(v) {
                    Ok(()) => {},
                    Err(_) => {
                        return Err(IpHelperError::QueryFailed);
                    },
                }
            },
        }
        match connections {
            None => {
                return Err(IpHelperError::QueryFailed);
            },
            Some(v) => {
                match self.connections.refresh_from(v) {
                    Ok(()) => {},
                    Err(_) => {
                        return Err(IpHelperError::QueryFailed);
                    },
                }
            },
        }
        Ok(())
    }

    /// Starts the backend and fills its tables from the snapshot. A backend
    /// that runs already refuses with `AlreadyRunning`; one whose snapshot
    /// a table refuses stays stopped and answers `QueryFailed`.
    pub fn start(&mut self, snapshot: IpHelperSnapshot) -> (r: Result<(), IpHelperError>)
        ensures
            old(self).spec_running() ==> r == Err::<(), IpHelperError>(IpHelperError::AlreadyRunning)
                && *final(self) == *old(self),
            !old(self).spec_running() ==> {
                &&& Self::refreshed(*old(self), *final(self), snapshot)
                &&& r is Ok <==> snapshot_accepted(snapshot)
                &&& r is Err ==> r == Err::<(), IpHelperError>(IpHelperError::QueryFailed)
                &&& final(self).spec_running() == r is Ok
            },
    {
        if self.running {
            return Err(IpHelperError::AlreadyRunning);
        }
        self.running = true;
        let r = self.apply(snapshot);
        if r.is_err() {
            self.running = false;
        }
        r
    }

    /// Stops the backend; one that does not run refuses with `NotRunning`.
    pub fn stop(&mut self) -> (r: Result<(), IpHelperError>)
        ensures
            old(self).spec_running() ==> r is Ok,
            !old(self).spec_running() ==> r == Err::<(), IpHelperError>(IpHelperError::NotRunning),
            !final(self).spec_running(),
            final(self).interface_entries() == old(self).interface_entries(),
            final(self).route_entries() == old(self).route_entries(),
            final(self).neighbor_entries() == old(self).neighbor_entries(),
            final(self).connection_entries() == old(self).connection_entries(),
    {
        if !self.running {
            return Err(IpHelperError::NotRunning);
        }
        self.running = false;
        Ok(())
    }

    pub fn is_running(&self) -> (r: bool)
        ensures
            r == self.spec_running(),
    {
        self.running
    }

    pub fn interfaces(&self) -> (r: &InterfaceTable)
        ensures
            r.entries() == self.interface_entries(),
    {
        &self.interfaces
    }

    pub fn routes(&self) -> (r: &RouteTable)
        ensures
            r.entries() == self.route_entries(),
    {
        &self.routes
    }

    pub fn neighbors(&self) -> (r: &NeighborTable)
        ensures
            r.entries() == self.neighbor_entries(),
    {
        &self.neighbors
    }

    pub fn connections(&self) -> (r: &ConnectionTable)
        ensures
            r.entries() == self.connection_entries(),
    {
        &self.connections
    }

    /// The interface table; the tables are owned by the backend, so this
    /// never fails.
    pub fn interface_table(&self) -> (r: Result<&InterfaceTable, IpHelperError>)
        ensures
            r matches Ok(t) && t.entries() == self.interface_entries(),
    {
        Ok(&self.interfaces)
    }

    /// The route table; never fails.
    pub fn route_table(&self) -> (r: Result<&RouteTable, IpHelperError>)
        ensures
            r matches Ok(t) && t.entries() == self.route_entries(),
    {
        Ok(&self.routes)
    }

    /// The neighbor table; never fails.
    pub fn neighbor_table(&self) -> (r: Result<&NeighborTable, IpHelperError>)
        ensures
            r matches Ok(t) && t.entries() == self.neighbor_entries(),
    {
        Ok(&self.neighbors)
    }

    /// The connection table; never fails.
    pub fn connection_table(&self) -> (r: Result<&ConnectionTable, IpHelperError>)
        ensures
            r matches Ok(t) && t.entries() == self.connection_entries(),
    {
        Ok(&self.connections)
    }

    /// Empties all four tables.
    pub fn clear_state(&mut self) -> (r: Result<(), IpHelperError>)
        ensures
            r is Ok,
            final(self).spec_running() == old(self).spec_running(),
            final(self).interface_entries() == Seq::<InterfaceInfo>::empty(),
            final(self).route_entries() == Seq::<RouteInfo>::empty(),
            final(self).neighbor_entries() == Seq::<NeighborInfo>::empty(),
            final(self).connection_entries() == Seq::<ConnectionInfo>::empty(),
    {
        self.interfaces.clear();
        self.routes.clear();
        self.neighbors.clear();
        self.connections.clear();
        Ok(())
    }

    /// Refreshes the tables of a running backend from the snapshot; a
    /// stopped backend refuses with `NotRunning`, and the first table that
    /// fails stops the refresh with `QueryFailed`.
    pub fn refresh_all(&mut self, snapshot: IpHelperSnapshot) -> (r: Result<(), IpHelperError>)
        ensures
            !old(self).spec_running() ==> r == Err::<(), IpHelperError>(IpHelperError::NotRunning)
                && *final(self) == *old(self),
            old(self).spec_running() ==> {
                &&& final(self).spec_running()
                &&& Self::refreshed(*old(self), *final(self), snapshot)
                &&& r is Ok <==> snapshot_accepted(snapshot)
                &&& r is Err ==> r == Err::<(), IpHelperError>(IpHelperError::QueryFailed)
            },
    {
        if !self.running {
            return Err(IpHelperError::NotRunning);
        }
        self.apply(snapshot)
    }
}

impl Default for IpHelperBackend {
    fn default() -> (r: Self)
        ensures
            !r.spec_running(),
            r.interface_entries() == Seq::<InterfaceInfo>::empty(),
            r.route_entries() == Seq::<RouteInfo>::empty(),
            r.neighbor_entries() == Seq::<NeighborInfo>::empty(),
            r.connection_entries() == Seq::<ConnectionInfo>::empty(),
    {
        Self::new()
    }
}

} // verus!
