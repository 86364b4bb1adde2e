use vstd::prelude::*;
use crate::address::Address;
use crate::channel::{channel_log, channel_write, written};
use crate::event::{EventView, NetworkEvent};
use crate::registry::{with_peer, NetworkResource};
use shrev::EventChannel;

verus! {

/// How one non-blocking accept on the listening socket ended.
pub enum AcceptOutcome<C> {
    /// A peer at this address connected; this is the connection, already
    /// made non-blocking and free of coalescing delay.
    Accepted(Address, C),
    /// No connection is pending.
    WouldBlock,
    /// The accept failed in another way.
    Failed,
}

/// Whether the accept loop of this tick goes on.
#[derive(Clone, Copy, Debug, PartialEq, Eq, Structural)]
pub enum Flow {
    /// Attempt another accept.
    Again,
    /// The backlog is drained, or there is nothing to accept on.
    Done,
}

/// The entries after an accept: the new connection registered, or nothing
/// changed where none came.
pub open spec fn entries_after_accept<C>(entries: Seq<(Address, C)>, outcome: AcceptOutcome<C>) -> Seq<(Address, C)> {
    match outcome {
        AcceptOutcome::Accepted(addr, conn) => with_peer(entries, addr, conn),
        _ => entries,
    }
}

/// The events that an accept gives rise to: a connect for a new connection.
pub open spec fn events_of_accept<C>(outcome: AcceptOutcome<C>) -> Seq<EventView> {
    match outcome {
        AcceptOutcome::Accepted(addr, _) => seq![EventView::Connect(addr)],
        _ => Seq::empty(),
    }
}

/// Only an accept that would block ends the loop: a failed one does not.
pub open spec fn flow_after_accept<C>(outcome: AcceptOutcome<C>) -> Flow {
    match outcome {
        AcceptOutcome::WouldBlock => Flow::Done,
        _ => Flow::Again,
    }
}

/// The component that registers inbound connections.
pub struct TcpConnectionListenerSystem;

impl TcpConnectionListenerSystem {
    /// Whether there is anything to accept on: with no listening socket
    /// installed the component does no work this tick.
    pub fn start<L, C>(&self, resource: &NetworkResource<L, C>) -> (flow: Flow)
        ensures
            flow == (if resource.listening().is_some() { Flow::Again } else { Flow::Done }),
    {
        match resource.listener() {
            Some(_) => Flow::Again,
            None => Flow::Done,
        }
    }

    /// Takes in the result of one accept. A new connection is registered
    /// under its address and announced by a connect event; the answer says
    /// whether to accept again.
    pub fn on_accept<L, C>(
        &mut self,
        resource: &mut NetworkResource<L, C>,
        channel: &mut EventChannel<NetworkEvent>,
        outcome: AcceptOutcome<C>,
    ) -> (flow: Flow)
        requires
            old(resource).wf(),
        ensures
            final(resource).wf(),
            final(resource)@ == entries_after_accept(old(resource)@, outcome),
            final(resource).listening() == old(resource).listening(),
            written(*old(channel), *final(channel), events_of_accept(outcome)),
            flow == flow_after_accept(outcome),
    {
        match outcome {
            AcceptOutcome::Accepted(addr, conn) => {
                resource.insert(addr, conn);
                let event = NetworkEvent::Connect(addr);
                channel_write(channel, event);
                assert(channel_log(*old(channel)).push(event@) =~= channel_log(*old(channel)) + seq![event@]);
                Flow::Again
            },
            AcceptOutcome::WouldBlock => {
                assert(channel_log(*old(channel)) + Seq::<EventView>::empty() =~= channel_log(*old(channel)));
                Flow::Done
            },
            AcceptOutcome::Failed => {
                assert(channel_log(*old(channel)) + Seq::<EventView>::empty() =~= channel_log(*old(channel)));
                Flow::Again
            },
        }
    }
}

} // verus!
