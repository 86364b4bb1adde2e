use vstd::prelude::*;
use crate::protocol::{ping, ping_bytes};
use crate::registry::{broadcast_of, outbound_views, NetworkResource, Outbound};

verus! {

/// The application logic on the serving side: each tick it asks every peer
/// for an answer.
pub struct Ping;

impl Ping {
    /// The writes of one tick: `ping` to every registered connection.
    pub fn run<L, C>(&mut self, resource: &NetworkResource<L, C>) -> (plan: Vec<Outbound>)
        ensures
            outbound_views(plan@) == broadcast_of(resource@, ping_bytes()),
    {
        let msg = ping();
        resource.send_all(msg.as_slice())
    }
}

} // verus!
