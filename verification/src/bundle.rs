use vstd::prelude::*;
use crate::acceptor::TcpConnectionListenerSystem;
use crate::address::Address;
use crate::channel::{channel_log, written};
use crate::event::NetworkEvent;
use crate::handler::TcpNetworkEventHandlerSystem;
use crate::reader::TcpNetworkListenerSystem;
use crate::registry::NetworkResource;
use shrev::EventChannel;

verus! {

/// What it takes to set the pipeline up: the listening socket, and the
/// address of a server to be connected to from the start, if there is one.
pub struct TcpSystemBundle<L> {
    listener: L,
    server_addr: Option<Address>,
}

/// The pipeline as built: the registry and the three components that the
/// host runs once per tick, in this order: acceptor, reader, handler.
pub struct TcpSystems<L, C> {
    pub resource: NetworkResource<L, C>,
    pub acceptor: TcpConnectionListenerSystem,
    pub reader: TcpNetworkListenerSystem,
    pub handler: TcpNetworkEventHandlerSystem,
}

/// The entries that the registry starts with: the connection to the server,
/// where an address was configured and the connection came about.
pub open spec fn initial_entries<C>(server_addr: Option<Address>, connection: Option<C>) -> Seq<(Address, C)> {
    match (server_addr, connection) {
        (Some(addr), Some(conn)) => seq![(addr, conn)],
        _ => Seq::empty(),
    }
}

impl<L> TcpSystemBundle<L> {
    /// The listening socket that the registry will be built with.
    pub closed spec fn spec_listener(&self) -> L {
        self.listener
    }

    /// The configured server address.
    pub closed spec fn spec_server_addr(&self) -> Option<Address> {
        self.server_addr
    }

    /// A bundle for this listening socket and, on a client, this server.
    pub fn new(listener: L, server_addr: Option<Address>) -> (bundle: Self)
        ensures
            bundle.spec_listener() == listener,
            bundle.spec_server_addr() == server_addr,
    {
        TcpSystemBundle { listener, server_addr }
    }

    /// The address that the host is to connect to before `build`, if any.
    pub fn server_addr(&self) -> (addr: Option<Address>)
        ensures
            addr == self.spec_server_addr(),
    {
        self.server_addr
    }

    /// Builds the pipeline. `connection` is what the host's attempt to
    /// connect to the server address gave: it is registered under that
    /// address. Without a server address, or without a connection, the
    /// registry starts empty.
    pub fn build<C>(self, channel: &mut EventChannel<NetworkEvent>, connection: Option<C>) -> (systems: TcpSystems<L, C>)
        ensures
            systems.resource.wf(),
            systems.resource.listening() == Some(self.spec_listener()),
            systems.resource@ == initial_entries(self.spec_server_addr(), connection),
            written(*old(channel), *final(channel), Seq::empty()),
            systems.handler.subscription().belongs_to(*final(channel)),
            systems.handler.subscription().cursor() == channel_log(*old(channel)).len(),
    {
        let handler = TcpNetworkEventHandlerSystem::new(channel);
        let mut resource = NetworkResource::new(self.listener);
        match (self.server_addr, connection) {
            (Some(addr), Some(conn)) => {
                resource.insert(addr, conn);
                assert(resource@ =~= seq![(addr, conn)]);
            },
            _ => {
                assert(resource@ =~= Seq::<(Address, C)>::empty());
            },
        }
        TcpSystems {
            resource,
            acceptor: TcpConnectionListenerSystem,
            reader: TcpNetworkListenerSystem,
            handler,
        }
    }
}

} // verus!
