use vstd::prelude::*;
use crate::address::Address;
use crate::channel::{channel_log, written, Subscription};
use crate::event::{views_of, EventView, NetworkEvent};
use crate::protocol::{greeting, greeting_bytes};
use crate::registry::{has_peer, without_peer, NetworkResource, Outbound};
use shrev::EventChannel;

verus! {

/// What the handler did with one event, and what is left for the host to do.
#[derive(Clone, Debug, PartialEq, Eq)]
pub enum Reaction {
    /// A peer connected: the host attempts this one write, the greeting.
    Send(Outbound),
    /// A payload arrived from this address; the handler itself has no answer
    /// to it.
    Received(Address),
    /// The connection registered for this address was removed.
    Disconnected(Address),
    /// Nothing was registered for this address: nothing was removed.
    AlreadyGone(Address),
}

/// The entries after the handler has seen an event: a disconnect removes
/// the address's connection, every other event leaves the entries alone.
pub open spec fn entries_after_event<C>(entries: Seq<(Address, C)>, event: EventView) -> Seq<(Address, C)> {
    match event {
        EventView::Disconnect(addr) => without_peer(entries, addr),
        _ => entries,
    }
}

/// The writes that the handler asks for on an event: the greeting to the
/// address of a connect, and nothing else.
pub open spec fn sends_of_event(event: EventView) -> Seq<(Address, Seq<u8>)> {
    match event {
        EventView::Connect(addr) => seq![(addr, greeting_bytes())],
        _ => Seq::empty(),
    }
}

/// The writes that a reaction leaves to the host.
pub open spec fn sends_of_reaction(reaction: Reaction) -> Seq<(Address, Seq<u8>)> {
    match reaction {
        Reaction::Send(out) => seq![out@],
        _ => Seq::empty(),
    }
}

/// The reaction is the one that the event calls for on these entries.
pub open spec fn reaction_matches<C>(entries: Seq<(Address, C)>, event: EventView, reaction: Reaction) -> bool {
    match event {
        EventView::Connect(addr) => reaction matches Reaction::Send(out) && out@ == (addr, greeting_bytes()),
        EventView::Message(addr, _) => reaction == Reaction::Received(addr),
        EventView::Disconnect(addr) => if has_peer(entries, addr) {
            reaction == Reaction::Disconnected(addr)
        } else {
            reaction == Reaction::AlreadyGone(addr)
        },
    }
}

/// The one consumer of the event log on the serving side: it greets new
/// peers and removes the connections of those that reset.
pub struct TcpNetworkEventHandlerSystem {
    reader_id: Subscription,
}

impl TcpNetworkEventHandlerSystem {
    /// The handler's subscription to the event log.
    pub closed spec fn subscription(&self) -> Subscription {
        self.reader_id
    }

    /// Subscribes a new handler to the channel.
    pub fn new(channel: &mut EventChannel<NetworkEvent>) -> (system: Self)
        ensures
            written(*old(channel), *final(channel), Seq::empty()),
            system.subscription().belongs_to(*final(channel)),
            system.subscription().cursor() == channel_log(*old(channel)).len(),
    {
        TcpNetworkEventHandlerSystem { reader_id: Subscription::new(channel) }
    }

    /// Advances the cursor to the end of the log and hands over the events
    /// it went past: all that were written since the last tick, in the order
    /// in which they were written.
    pub fn poll(&mut self, channel: &EventChannel<NetworkEvent>) -> (events: Vec<NetworkEvent>)
        requires
            old(self).subscription().belongs_to(*channel),
        ensures
            final(self).subscription().belongs_to(*channel),
            final(self).subscription().cursor() == channel_log(*channel).len(),
            views_of(events@) == channel_log(*channel).skip(old(self).subscription().cursor() as int),
    {
        self.reader_id.poll(channel)
    }

    /// Reacts to one event. A connect asks the host for exactly one write,
    /// the greeting to the new address; a message is taken note of; a
    /// disconnect removes the address's connection, or nothing where it has
    /// none left.
    pub fn on_event<L, C>(&self, resource: &mut NetworkResource<L, C>, event: &NetworkEvent) -> (reaction: Reaction)
        requires
            old(resource).wf(),
        ensures
            final(resource).wf(),
            final(resource)@ == entries_after_event(old(resource)@, event@),
            final(resource).listening() == old(resource).listening(),
            reaction_matches(old(resource)@, event@, reaction),
            sends_of_reaction(reaction) == sends_of_event(event@),
    {
        match event {
            NetworkEvent::Connect(addr) => {
                Reaction::Send(Outbound { dest: *addr, payload: greeting() })
            },
            NetworkEvent::Message(addr, _) => {
                Reaction::Received(*addr)
            },
            NetworkEvent::Disconnect(addr) => {
                match resource.remove(addr) {
                    Some(_) => Reaction::Disconnected(*addr),
                    None => Reaction::AlreadyGone(*addr),
                }
            },
        }
    }
}

} // verus!
